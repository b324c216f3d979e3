//! The distributor: single-producer broadcast to subscribers with bounded
//! buffers and a drop-oldest policy.
//!
//! Every live subscriber's buffer is a contiguous window over the end of one
//! shared send history, so each subscriber sees packets in exactly the order
//! they were sent; a lagging subscriber loses the oldest packets and is told
//! how many on its next receive. The channels and wake-ups around this model
//! live outside the library.
use vstd::prelude::*;

use crate::live::ws::{views_of, WsPacket, WsPacketModel};

verus! {

/// One subscriber's slot: its buffer, the count of packets dropped since its
/// last receive, and, ghost, the position of its window in the send history.
pub struct SubSlot {
    /// The buffered packets, oldest first.
    pub buf: Vec<WsPacket>,
    /// How many packets were dropped from the front of `buf` since the
    /// subscriber last received; saturates rather than wraps.
    pub dropped: u64,
    /// False once the subscriber is gone; a dead slot holds no buffer.
    pub live: bool,
    /// Where the window begins: `buf` holds the send history from this
    /// position on.
    pub pos: Ghost<int>,
}

/// The outcome of one receive.
#[derive(Debug)]
pub enum RecvOutcome {
    /// The oldest buffered packet.
    Packet(WsPacket),
    /// How many packets this subscriber lost since it last received.
    Lagged(u64),
    /// Nothing buffered yet; the stream is still open.
    Pending,
    /// Nothing buffered and the stream is closed.
    Closed,
}

/// The distributor: the subscribers' slots, the buffer capacity each gets,
/// and, ghost, the history of everything sent.
pub struct Distributor {
    pub subs: Vec<SubSlot>,
    /// Buffer capacity per subscriber; at least one.
    pub cap: usize,
    /// True once the stream is closed.
    pub closed: bool,
    /// Everything ever sent, in order.
    pub history: Ghost<Seq<WsPacketModel>>,
}

/// How one slot changes when a packet `pv` is sent with capacity `cap`: a
/// dead slot stands; a live one takes `pv` at the back, shedding its oldest
/// packet first when full.
pub open spec fn slot_send_ok(sb: SubSlot, sb2: SubSlot, cap: usize, pv: WsPacketModel) -> bool {
    if !sb.live {
        sb2 == sb
    } else {
        &&& sb2.live
        &&& if sb.buf@.len() < cap {
            &&& views_of(sb2.buf@) == views_of(sb.buf@).push(pv)
            &&& sb2.dropped == sb.dropped
            &&& sb2.pos@ == sb.pos@
        } else {
            &&& views_of(sb2.buf@) == views_of(sb.buf@).drop_first().push(pv)
            &&& sb2.dropped == (if sb.dropped < u64::MAX {
                (sb.dropped + 1) as u64
            } else {
                sb.dropped
            })
            &&& sb2.pos@ == sb.pos@ + 1
        }
    }
}

impl Distributor {
    /// A live slot holds exactly the send history from its position on, and
    /// never more than the capacity.
    pub open spec fn sub_wf(self, i: int) -> bool {
        self.subs@[i].live ==> {
            &&& 0 <= self.subs@[i].pos@ <= self.history@.len()
            &&& views_of(self.subs@[i].buf@) == self.history@.subrange(
                self.subs@[i].pos@,
                self.history@.len() as int,
            )
            &&& self.history@.len() - self.subs@[i].pos@ <= self.cap
        }
    }

    /// Well-formed: a positive capacity, and every live slot a window over
    /// the end of the history.
    pub open spec fn wf(self) -> bool {
        &&& self.cap >= 1
        &&& forall|i: int| 0 <= i < self.subs@.len() ==> #[trigger] self.sub_wf(i)
    }

    /// An empty distributor giving each subscriber a buffer of `cap`.
    pub fn new(cap: usize) -> (r: Self)
        requires
            cap >= 1,
        ensures
            r.wf(),
            r.subs@.len() == 0,
            r.cap == cap,
            !r.closed,
            r.history@.len() == 0,
    {
        Distributor { subs: Vec::new(), cap, closed: false, history: Ghost(Seq::empty()) }
    }

    /// Add a subscriber; it will see the packets sent after this call, and
    /// none of what came before. Returns its handle.
    pub fn subscribe(&mut self) -> (id: usize)
        requires
            old(self).wf(),
        ensures
            final(self).wf(),
            id == old(self).subs@.len(),
            final(self).subs@.len() == old(self).subs@.len() + 1,
            forall|i: int|
                0 <= i < old(self).subs@.len() ==> final(self).subs@[i] == old(self).subs@[i],
            final(self).subs@[id as int].live,
            final(self).subs@[id as int].buf@.len() == 0,
            final(self).subs@[id as int].dropped == 0,
            final(self).subs@[id as int].pos@ == old(self).history@.len(),
            final(self).cap == old(self).cap,
            final(self).closed == old(self).closed,
            final(self).history == old(self).history,
    {
        let id = self.subs.len();
        let slot = SubSlot {
            buf: Vec::new(),
            dropped: 0,
            live: true,
            pos: Ghost(self.history@.len() as int),
        };
        self.subs.push(slot);
        proof {
            assert forall|i: int| 0 <= i < self.subs@.len() implies #[trigger] self.sub_wf(i) by {
                if i < self.subs@.len() - 1 {
                    assert(old(self).sub_wf(i));
                    assert(self.subs@[i] == old(self).subs@[i]);
                } else {
                    assert(views_of(self.subs@[i].buf@) =~= self.history@.subrange(
                        self.history@.len() as int,
                        self.history@.len() as int,
                    ));
                }
            }
        }
        id
    }

    /// Broadcast one packet: append it to every live subscriber's buffer,
    /// shedding the oldest packet of any buffer already full.
    pub fn send(&mut self, p: WsPacket)
        requires
            old(self).wf(),
        ensures
            final(self).wf(),
            final(self).history@ == old(self).history@.push(p@),
            final(self).subs@.len() == old(self).subs@.len(),
            final(self).cap == old(self).cap,
            final(self).closed == old(self).closed,
            forall|i: int|
                0 <= i < old(self).subs@.len() ==> slot_send_ok(
                    old(self).subs@[i],
                    #[trigger] final(self).subs@[i],
                    old(self).cap,
                    p@,
                ),
    {
        let mut updated: Vec<SubSlot> = Vec::new();
        while self.subs.len() > 0
            invariant
                self.cap == old(self).cap,
                self.closed == old(self).closed,
                self.history == old(self).history,
                old(self).wf(),
                self.cap >= 1,
                updated@.len() + self.subs@.len() == old(self).subs@.len(),
                self.subs@ == old(self).subs@.subrange(
                    updated@.len() as int,
                    old(self).subs@.len() as int,
                ),
                forall|i: int|
                    0 <= i < updated@.len() ==> slot_send_ok(
                        old(self).subs@[i],
                        #[trigger] updated@[i],
                        old(self).cap,
                        p@,
                    ),
            decreases self.subs@.len(),
        {
            let ghost k = updated@.len() as int;
            let mut slot = self.subs.remove(0);
            proof {
                assert(slot == old(self).subs@[k]);
                assert(old(self).sub_wf(k));
                assert(self.subs@ =~= old(self).subs@.subrange(
                    k + 1,
                    old(self).subs@.len() as int,
                ));
            }
            if slot.live {
                if slot.buf.len() == self.cap {
                    slot.buf.remove(0);
                    if slot.dropped < u64::MAX {
                        slot.dropped = slot.dropped + 1;
                    }
                    proof {
                        slot.pos@ = slot.pos@ + 1;
                    }
                    let ghost sb = old(self).subs@[k];
                    proof {
                        assert(views_of(slot.buf@) =~= views_of(sb.buf@).drop_first());
                    }
                }
                let ghost mid = slot;
                slot.buf.push(p.clone());
                proof {
                    assert(views_of(slot.buf@) =~= views_of(mid.buf@).push(p@));
                }
            }
            updated.push(slot);
        }
        self.subs = updated;
        proof {
            self.history@ = self.history@.push(p@);
            assert forall|i: int| 0 <= i < self.subs@.len() implies #[trigger] self.sub_wf(i) by {
                let sb = old(self).subs@[i];
                let sb2 = self.subs@[i];
                assert(slot_send_ok(sb, sb2, old(self).cap, p@));
                assert(old(self).sub_wf(i));
                if sb.live {
                    let oldh = old(self).history@;
                    if sb.buf@.len() < old(self).cap {
                        assert(views_of(sb2.buf@) =~= self.history@.subrange(
                            sb2.pos@,
                            self.history@.len() as int,
                        ));
                    } else {
                        assert(views_of(sb.buf@).drop_first() =~= oldh.subrange(
                            sb.pos@ + 1,
                            oldh.len() as int,
                        ));
                        assert(views_of(sb2.buf@) =~= self.history@.subrange(
                            sb2.pos@,
                            self.history@.len() as int,
                        ));
                    }
                }
            }
        }
    }

    /// One receive for subscriber `id`: packets lost since its last receive
    /// are reported first, then the oldest buffered packet; with nothing
    /// buffered, whether the stream is still open.
    pub fn recv(&mut self, id: usize) -> (r: RecvOutcome)
        requires
            old(self).wf(),
            id < old(self).subs@.len(),
            old(self).subs@[id as int].live,
        ensures
            final(self).wf(),
            final(self).subs@.len() == old(self).subs@.len(),
            final(self).cap == old(self).cap,
            final(self).closed == old(self).closed,
            final(self).history == old(self).history,
            forall|i: int|
                0 <= i < old(self).subs@.len() && i != id ==> final(self).subs@[i] == old(
                    self,
                ).subs@[i],
            final(self).subs@[id as int].live,
            ({
                let sb = old(self).subs@[id as int];
                let sb2 = final(self).subs@[id as int];
                &&& (sb.dropped > 0 ==> (r matches RecvOutcome::Lagged(k) && k == sb.dropped
                    && sb2.dropped == 0 && sb2.buf@ == sb.buf@ && sb2.pos == sb.pos))
                &&& (sb.dropped == 0 && sb.buf@.len() > 0 ==> (r matches RecvOutcome::Packet(q)
                    && q@ == views_of(sb.buf@)[0] && views_of(sb2.buf@) == views_of(
                    sb.buf@,
                ).drop_first() && sb2.pos@ == sb.pos@ + 1 && sb2.dropped == 0))
                &&& (sb.dropped == 0 && sb.buf@.len() == 0 && old(self).closed ==> r
                    is Closed && sb2 == sb)
                &&& (sb.dropped == 0 && sb.buf@.len() == 0 && !old(self).closed ==> r
                    is Pending && sb2 == sb)
            }),
    {
        let ghost idx = id as int;
        let mut slot = self.subs.remove(id);
        proof {
            assert(slot == old(self).subs@[idx]);
        }
        let r = if slot.dropped > 0 {
            let k = slot.dropped;
            slot.dropped = 0;
            RecvOutcome::Lagged(k)
        } else if slot.buf.len() > 0 {
            let q = slot.buf.remove(0);
            proof {
                slot.pos@ = slot.pos@ + 1;
                assert(views_of(slot.buf@) =~= views_of(old(self).subs@[idx].buf@).drop_first());
            }
            RecvOutcome::Packet(q)
        } else if self.closed {
            RecvOutcome::Closed
        } else {
            RecvOutcome::Pending
        };
        self.subs.insert(id, slot);
        proof {
            assert(self.subs@ =~= old(self).subs@.update(idx, self.subs@[idx]));
            assert forall|i: int| 0 <= i < self.subs@.len() implies #[trigger] self.sub_wf(i) by {
                assert(old(self).sub_wf(i));
                if i == idx && old(self).subs@[idx].dropped == 0 && old(
                    self,
                ).subs@[idx].buf@.len() > 0 {
                    assert(views_of(self.subs@[i].buf@) =~= self.history@.subrange(
                        self.subs@[i].pos@,
                        self.history@.len() as int,
                    ));
                }
            }
        }
        r
    }

    /// Drop subscriber `id`: its slot goes dead and its buffer is released
    /// at once. Dropping an already dead subscriber changes nothing more.
    pub fn unsubscribe(&mut self, id: usize)
        requires
            old(self).wf(),
            id < old(self).subs@.len(),
        ensures
            final(self).wf(),
            final(self).subs@.len() == old(self).subs@.len(),
            final(self).cap == old(self).cap,
            final(self).closed == old(self).closed,
            final(self).history == old(self).history,
            forall|i: int|
                0 <= i < old(self).subs@.len() && i != id ==> final(self).subs@[i] == old(
                    self,
                ).subs@[i],
            !final(self).subs@[id as int].live,
            final(self).subs@[id as int].buf@.len() == 0,
            final(self).subs@[id as int].dropped == 0,
    {
        let ghost idx = id as int;
        let mut slot = self.subs.remove(id);
        slot.live = false;
        slot.buf = Vec::new();
        slot.dropped = 0;
        self.subs.insert(id, slot);
        proof {
            assert(self.subs@ =~= old(self).subs@.update(idx, self.subs@[idx]));
            assert forall|i: int| 0 <= i < self.subs@.len() implies #[trigger] self.sub_wf(i) by {
                assert(old(self).sub_wf(i));
            }
        }
    }

    /// Close the stream: subscribers drain what is buffered and then see
    /// `Closed`. Closing twice changes nothing the second time.
    pub fn close(&mut self)
        ensures
            *final(self) == (Distributor { closed: true, ..*old(self) }),
    {
        self.closed = true;
    }
}

/// Any two subscribers see one shared order: each live subscriber's buffer
/// is a contiguous window over the end of the one send history, so a packet
/// delivered to both has the same predecessors in each subscriber's stream,
/// short of the drops each is told about.
pub proof fn lemma_broadcast_order(d: Distributor, i: int, j: int)
    requires
        d.wf(),
        0 <= i < d.subs@.len(),
        0 <= j < d.subs@.len(),
        d.subs@[i].live,
        d.subs@[j].live,
    ensures
        views_of(d.subs@[i].buf@) == d.history@.subrange(d.subs@[i].pos@, d.history@.len() as int),
        views_of(d.subs@[j].buf@) == d.history@.subrange(d.subs@[j].pos@, d.history@.len() as int),
{
    assert(d.sub_wf(i));
    assert(d.sub_wf(j));
}

} // verus!
