use vstd::prelude::*;
use crate::message::{Message, MsgView};

verus! {

/// The byte-sequence image of a backlog of messages.
pub open spec fn views(b: Seq<Message>) -> Seq<MsgView> {
    b.map_values(|m: Message| m@)
}

/// One subscriber's cursor into the shared broadcast stream. Each session
/// owns exactly one. The backlog is bounded: when a publish finds it full,
/// the oldest buffered message is dropped for this subscriber only and the
/// subscription is marked as having lagged.
pub struct SubState {
    /// Whether the owning session is still attached.
    pub live: bool,
    /// Whether a drop has happened that `receive` has not yet reported.
    pub lagged: bool,
    /// The buffered deliveries, oldest first.
    pub backlog: Vec<Message>,
    /// Where in the bus history this subscription began.
    pub start: Ghost<int>,
    /// The messages `receive` has handed to the session, oldest first.
    pub taken: Ghost<Seq<MsgView>>,
    /// How many messages were dropped from this backlog, in total.
    pub missed: Ghost<int>,
    /// Whether this subscription has never missed a message.
    pub clean: Ghost<bool>,
}

impl SubState {
    /// The index in the bus history of the front of the backlog.
    pub open spec fn pos(self) -> int {
        self.start@ + self.taken@.len() + self.missed@
    }

    /// The backlog is exactly the tail of the published history past this
    /// subscription's cursor, and a subscription that never missed a message
    /// has taken exactly the run of history from its start to its cursor.
    pub open spec fn wf(self, history: Seq<MsgView>, capacity: usize) -> bool {
        &&& 0 <= self.start@ <= history.len()
        &&& 0 <= self.missed@
        &&& self.pos() + self.backlog@.len() == history.len()
        &&& self.backlog@.len() <= capacity
        &&& views(self.backlog@) == history.subrange(self.pos(), history.len() as int)
        &&& (self.clean@ ==> self.missed@ == 0 && !self.lagged)
        &&& (self.clean@ ==> self.taken@ == history.subrange(self.start@, self.pos()))
    }
}

/// What one call of `Bus::receive` produced for a subscription.
pub enum RecvOutcome {
    /// The oldest buffered delivery.
    Msg(Message),
    /// One or more messages were missed because the backlog overflowed.
    Lagged,
    /// Nothing is buffered yet; a connected session would suspend and retry.
    Pending,
}

/// How one live subscription changes when `m` is published with backlog
/// capacity `cap`: the message is appended to its backlog; if the backlog was
/// full, the oldest entry is dropped first and the subscription is marked
/// lagged. The cursor and the already-taken messages are untouched.
pub open spec fn publish_step(o: SubState, n: SubState, m: MsgView, cap: usize) -> bool {
    &&& n.live == o.live
    &&& n.start == o.start
    &&& n.taken == o.taken
    &&& (o.backlog@.len() < cap ==> {
        &&& views(n.backlog@) == views(o.backlog@).push(m)
        &&& n.missed == o.missed
        &&& n.lagged == o.lagged
        &&& n.clean == o.clean
    })
    &&& (o.backlog@.len() >= cap ==> {
        &&& views(n.backlog@) == views(o.backlog@).drop_first().push(m)
        &&& n.missed@ == o.missed@ + 1
        &&& n.lagged
        &&& !n.clean@
    })
}

/// How many of these subscriptions are live.
pub open spec fn live_count(s: Seq<SubState>) -> int
    decreases s.len(),
{
    if s.len() == 0 {
        0
    } else {
        live_count(s.drop_last()) + (if s.last().live { 1int } else { 0int })
    }
}

/// The fan-out bus: one shared broadcast stream with an independent bounded
/// backlog per subscriber. Publishing never blocks and never fails the
/// publisher; one slow subscriber loses its own oldest messages and is
/// flagged, and no other subscriber is affected.
///
/// This is the verified model of the broadcast channel the relay runs on:
/// it states, and the proofs below hold it to, the delivery, ordering and
/// lag semantics that the session logic assumes of whatever channel carries
/// its messages.
pub struct Bus {
    /// The backlog bound every subscription is created with.
    pub capacity: usize,
    /// All subscriptions ever created, addressed by index.
    pub subs: Vec<SubState>,
    /// Every message ever published, in publish order.
    pub history: Ghost<Seq<MsgView>>,
}

impl Bus {
    pub open spec fn wf(self) -> bool {
        &&& self.capacity >= 1
        &&& forall|i: int|
            0 <= i < self.subs@.len() && (#[trigger] self.subs@[i]).live ==> self.subs@[i].wf(
                self.history@,
                self.capacity,
            )
    }

    /// A fresh bus with no subscribers and nothing published.
    pub fn new(capacity: usize) -> (r: Bus)
        requires
            capacity >= 1,
        ensures
            r.wf(),
            r.capacity == capacity,
            r.subs@.len() == 0,
            r.history@ == Seq::<MsgView>::empty(),
    {
        Bus { capacity, subs: Vec::new(), history: Ghost(Seq::empty()) }
    }

    /// A new, independent cursor starting from now: it will see no message
    /// published before this call. Creation always succeeds; no existing
    /// subscription is touched.
    pub fn subscribe(&mut self) -> (r: usize)
        requires
            old(self).wf(),
        ensures
            final(self).wf(),
            r == old(self).subs@.len(),
            final(self).subs@.len() == old(self).subs@.len() + 1,
            final(self).capacity == old(self).capacity,
            final(self).history == old(self).history,
            forall|j: int|
                0 <= j < old(self).subs@.len() ==> final(self).subs@[j] == old(self).subs@[j],
            final(self).subs@[r as int].live,
            !final(self).subs@[r as int].lagged,
            final(self).subs@[r as int].backlog@.len() == 0,
            final(self).subs@[r as int].start@ == old(self).history@.len(),
            final(self).subs@[r as int].taken@ == Seq::<MsgView>::empty(),
            final(self).subs@[r as int].missed@ == 0,
            final(self).subs@[r as int].clean@,
    {
        let r = self.subs.len();
        let ghost h = self.history@;
        self.subs.push(SubState {
            live: true,
            lagged: false,
            backlog: Vec::new(),
            start: Ghost(h.len() as int),
            taken: Ghost(Seq::empty()),
            missed: Ghost(0),
            clean: Ghost(true),
        });
        proof {
            let n = self.subs@[r as int];
            assert(views(n.backlog@) =~= h.subrange(n.pos(), h.len() as int));
            assert(n.taken@ =~= h.subrange(n.start@, n.pos()));
        }
        r
    }

    /// Delivers `m` to every live subscription's backlog, dropping the oldest
    /// buffered message of any subscription whose backlog is full and marking
    /// it lagged; every other subscription simply gains `m` at the back. The
    /// publisher is never blocked or failed. Returns how many subscriptions
    /// the message was delivered to; zero means it was discarded.
    pub fn publish(&mut self, m: Message) -> (r: usize)
        requires
            old(self).wf(),
        ensures
            final(self).wf(),
            final(self).capacity == old(self).capacity,
            final(self).history@ == old(self).history@.push(m@),
            final(self).subs@.len() == old(self).subs@.len(),
            r == live_count(old(self).subs@),
            forall|j: int|
                0 <= j < old(self).subs@.len() && !(#[trigger] old(self).subs@[j]).live
                    ==> final(self).subs@[j] == old(self).subs@[j],
            forall|j: int|
                0 <= j < old(self).subs@.len() && (#[trigger] old(self).subs@[j]).live
                    ==> publish_step(
                    old(self).subs@[j],
                    final(self).subs@[j],
                    m@,
                    old(self).capacity,
                ),
            forall|j: int|
                0 <= j < old(self).subs@.len() && (#[trigger] old(self).subs@[j]).live ==> {
                    &&& final(self).subs@[j].backlog@.len() >= 1
                    &&& views(final(self).subs@[j].backlog@).last() == m@
                },
    {
        let ghost h0 = self.history@;
        self.history = Ghost(h0.push(m@));
        let mut i: usize = 0;
        let mut delivered: usize = 0;
        while i < self.subs.len()
            invariant
                self.capacity == old(self).capacity,
                self.capacity >= 1,
                self.history@ == h0.push(m@),
                h0 == old(self).history@,
                self.subs@.len() == old(self).subs@.len(),
                i <= self.subs@.len(),
                delivered <= i,
                delivered == live_count(old(self).subs@.subrange(0, i as int)),
                forall|j: int|
                    i <= j < self.subs@.len() ==> self.subs@[j] == old(self).subs@[j],
                forall|j: int|
                    i <= j < self.subs@.len() && (#[trigger] self.subs@[j]).live
                        ==> self.subs@[j].wf(h0, self.capacity),
                forall|j: int|
                    0 <= j < i && !(#[trigger] old(self).subs@[j]).live
                        ==> self.subs@[j] == old(self).subs@[j],
                forall|j: int|
                    0 <= j < i && (#[trigger] old(self).subs@[j]).live ==> publish_step(
                        old(self).subs@[j],
                        self.subs@[j],
                        m@,
                        self.capacity,
                    ),
                forall|j: int|
                    0 <= j < i && (#[trigger] self.subs@[j]).live ==> self.subs@[j].wf(
                        self.history@,
                        self.capacity,
                    ),
                forall|j: int|
                    0 <= j < i && (#[trigger] old(self).subs@[j]).live ==> {
                        &&& self.subs@[j].backlog@.len() >= 1
                        &&& views(self.subs@[j].backlog@).last() == m@
                    },
            decreases self.subs@.len() - i,
        {
            let ghost pre = self.subs@[i as int];
            let cap = self.capacity;
            let is_live = self.subs[i].live;
            if is_live {
                let sub = &mut self.subs[i];
                proof {
                    assert(pre.wf(h0, cap));
                }
                if sub.backlog.len() == cap {
                    let ghost b0 = sub.backlog@;
                    sub.backlog.remove(0);
                    sub.lagged = true;
                    sub.missed = Ghost(sub.missed@ + 1);
                    sub.clean = Ghost(false);
                    sub.backlog.push(m.duplicate());
                    proof {
                        let nb = sub.backlog@;
                        assert(views(nb) =~= views(b0).drop_first().push(m@));
                        assert(views(b0) == h0.subrange(pre.pos(), h0.len() as int));
                        assert(views(nb) =~= self.history@.subrange(
                            pre.pos() + 1,
                            self.history@.len() as int,
                        ));
                    }
                } else {
                    let ghost b0 = sub.backlog@;
                    sub.backlog.push(m.duplicate());
                    proof {
                        let nb = sub.backlog@;
                        assert(views(nb) =~= views(b0).push(m@));
                        assert(views(b0) == h0.subrange(pre.pos(), h0.len() as int));
                        assert(views(nb) =~= self.history@.subrange(
                            pre.pos(),
                            self.history@.len() as int,
                        ));
                        if pre.clean@ {
                            assert(pre.taken@ =~= self.history@.subrange(
                                pre.start@,
                                pre.pos(),
                            ));
                        }
                    }
                }
                delivered = delivered + 1;
            }
            proof {
                lemma_live_count_step(old(self).subs@, i as int);
                assert(old(self).subs@.subrange(0, i as int + 1).drop_last() =~= old(
                    self,
                ).subs@.subrange(0, i as int));
                if pre.clean@ && is_live {
                    let n = self.subs@[i as int];
                    if pre.backlog@.len() < cap {
                        assert(n.taken@ =~= self.history@.subrange(n.start@, n.pos()));
                    }
                }
            }
            i += 1;
        }
        proof {
            assert(old(self).subs@.subrange(0, old(self).subs@.len() as int) =~= old(
                self,
            ).subs@);
        }
        delivered
    }

    /// The next delivery for subscription `i`: the oldest buffered message,
    /// or `Lagged` exactly when a miss has happened and not yet been
    /// reported, or `Pending` when nothing is buffered. No other
    /// subscription is read or changed.
    pub fn receive(&mut self, i: usize) -> (r: RecvOutcome)
        requires
            old(self).wf(),
            i < old(self).subs@.len(),
            old(self).subs@[i as int].live,
        ensures
            final(self).wf(),
            final(self).capacity == old(self).capacity,
            final(self).history == old(self).history,
            final(self).subs@.len() == old(self).subs@.len(),
            forall|j: int|
                0 <= j < old(self).subs@.len() && j != i ==> final(self).subs@[j] == old(
                    self,
                ).subs@[j],
            ({
                let o = old(self).subs@[i as int];
                let n = final(self).subs@[i as int];
                &&& n.live
                &&& n.start == o.start
                &&& (o.lagged ==> {
                    &&& r is Lagged
                    &&& !n.lagged
                    &&& n.backlog == o.backlog
                    &&& n.taken == o.taken
                    &&& n.missed == o.missed
                    &&& n.clean == o.clean
                })
                &&& (!o.lagged && o.backlog@.len() == 0 ==> r is Pending && n == o)
                &&& (!o.lagged && o.backlog@.len() > 0 ==> {
                    &&& r is Msg
                    &&& r->Msg_0@ == views(o.backlog@)[0]
                    &&& views(n.backlog@) == views(o.backlog@).drop_first()
                    &&& n.taken@ == o.taken@.push(views(o.backlog@)[0])
                    &&& n.missed == o.missed
                    &&& n.lagged == o.lagged
                    &&& n.clean == o.clean
                })
            }),
    {
        let ghost h = self.history@;
        let ghost o = self.subs@[i as int];
        let sub = &mut self.subs[i];
        proof {
            assert(o.wf(h, old(self).capacity));
        }
        if sub.lagged {
            sub.lagged = false;
            RecvOutcome::Lagged
        } else if sub.backlog.len() == 0 {
            RecvOutcome::Pending
        } else {
            let m = sub.backlog.remove(0);
            sub.taken = Ghost(sub.taken@.push(m@));
            proof {
                assert(views(sub.backlog@) =~= views(o.backlog@).drop_first());
                assert(m@ == views(o.backlog@)[0]);
                assert(views(o.backlog@) == h.subrange(o.pos(), h.len() as int));
                assert(views(sub.backlog@) =~= h.subrange(o.pos() + 1, h.len() as int));
                if o.clean@ {
                    assert(m@ == h[o.pos()]);
                    assert(sub.taken@ =~= h.subrange(o.start@, o.pos() + 1));
                }
            }
            RecvOutcome::Msg(m)
        }
    }

    /// Detaches subscription `i`: it is no longer live and its backlog is
    /// released. Every other subscription is left exactly as it was, so a
    /// client's disconnect cannot change what any other client receives.
    pub fn unsubscribe(&mut self, i: usize)
        requires
            old(self).wf(),
            i < old(self).subs@.len(),
        ensures
            final(self).wf(),
            final(self).capacity == old(self).capacity,
            final(self).history == old(self).history,
            final(self).subs@.len() == old(self).subs@.len(),
            !final(self).subs@[i as int].live,
            forall|j: int|
                0 <= j < old(self).subs@.len() && j != i ==> final(self).subs@[j] == old(
                    self,
                ).subs@[j],
    {
        let sub = &mut self.subs[i];
        sub.live = false;
        sub.backlog = Vec::new();
    }
}

/// Extending a prefix of subscriptions by one adds one to the live count
/// exactly when the added subscription is live.
proof fn lemma_live_count_step(s: Seq<SubState>, i: int)
    requires
        0 <= i < s.len(),
    ensures
        live_count(s.subrange(0, i + 1)) == live_count(s.subrange(0, i)) + (if s[i].live {
            1int
        } else {
            0int
        }),
{
    let t = s.subrange(0, i + 1);
    assert(t.drop_last() =~= s.subrange(0, i));
    assert(t.last() == s[i]);
}

/// A slow subscriber's overflow is its own: under a publish, any
/// subscription whose backlog has room simply gains the message at the back
/// and keeps its lag state, whatever happened to any other subscription; one
/// that is full loses only its own oldest entry and is flagged, and no other
/// subscription pays for it.
pub proof fn lemma_slow_subscriber_isolation(o: SubState, n: SubState, m: MsgView, cap: usize)
    requires
        publish_step(o, n, m, cap),
    ensures
        o.backlog@.len() < cap ==> {
            &&& views(n.backlog@) == views(o.backlog@).push(m)
            &&& n.lagged == o.lagged
            &&& n.missed == o.missed
            &&& n.clean == o.clean
        },
        o.backlog@.len() >= cap ==> {
            &&& views(n.backlog@) == views(o.backlog@).drop_first().push(m)
            &&& n.lagged
        },
        n.taken == o.taken,
{
}

/// In-order delivery: a subscription that has never missed a message has
/// taken exactly the contiguous run of history from its start to its cursor,
/// in publish order, and what it has taken followed by its backlog is the
/// whole history published since it subscribed.
pub proof fn lemma_in_order_delivery(b: Bus, i: int)
    requires
        b.wf(),
        0 <= i < b.subs@.len(),
        b.subs@[i].live,
        b.subs@[i].clean@,
    ensures
        b.subs@[i].taken@ == b.history@.subrange(
            b.subs@[i].start@,
            b.subs@[i].start@ + b.subs@[i].taken@.len(),
        ),
        b.subs@[i].taken@ + views(b.subs@[i].backlog@) == b.history@.subrange(
            b.subs@[i].start@,
            b.history@.len() as int,
        ),
{
    let sub = b.subs@[i];
    assert(sub.wf(b.history@, b.capacity));
    assert(sub.taken@ + views(sub.backlog@) =~= b.history@.subrange(
        sub.start@,
        b.history@.len() as int,
    ));
}

} // verus!
