//! The viewer side: the reorder queue, duplicate suppression, and gap repair
//! by negative acknowledgement.

use vstd::prelude::*;
use crate::wire::{ClientResponse, Data};

verus! {

/// Length at which the reorder queue is full; reaching it is fatal.
pub const QMAX: usize = 500;

/// Element `i` of `q` carries sequence number `i + 1`, and `q` is not over
/// its bound.
pub open spec fn well_ordered(q: Seq<Data>) -> bool {
    &&& q.len() <= QMAX
    &&& forall|i: int| 0 <= i < q.len() ==> #[trigger] q[i].packet_index == i + 1
}

/// The queue after offering it `s`: `s` is appended exactly when it is the
/// next sample in order and there is still room.
pub open spec fn accept(q: Seq<Data>, s: Data) -> Seq<Data> {
    if s.packet_index == q.len() + 1 && q.len() < QMAX {
        q.push(s)
    } else {
        q
    }
}

/// The control message answering `s` when `expected` is the last accepted
/// sequence number and `full` says the queue is at its bound. Nothing answers
/// a sample whose predecessor's number does not fit in `i16`, or any sample
/// once full.
pub open spec fn reply(expected: int, full: bool, s: Data) -> Option<ClientResponse> {
    if full || s.packet_index == i16::MIN {
        None
    } else if s.packet_index - expected == 1 || s.packet_index - expected == 0 {
        Some(ClientResponse { packet_index: 0 })
    } else {
        Some(ClientResponse { packet_index: (s.packet_index - 1) as i16 })
    }
}

/// The queue after a gap repair: the retransmitted sample `repair` is
/// offered first, then the sample `s` that revealed the gap.
pub open spec fn repaired(q: Seq<Data>, s: Data, repair: Data) -> Seq<Data> {
    accept(accept(q, repair), s)
}

/// The viewer's state: `index` is the last sequence number accepted (zero
/// before any), and `queue` the accepted samples in order.
pub struct PacketStatus {
    index: i16,
    queue: Vec<Data>,
}

impl PacketStatus {
    /// The queue is well ordered and `index` is the sequence number at its
    /// back, or zero when it is empty.
    pub open spec fn wf_spec(&self) -> bool {
        &&& well_ordered(self.queue_spec())
        &&& self.index_spec() == if self.queue_spec().len() == 0 {
            0
        } else {
            self.queue_spec().last().packet_index as int
        }
    }

    pub closed spec fn queue_spec(&self) -> Seq<Data> {
        self.queue@
    }

    pub closed spec fn index_spec(&self) -> int {
        self.index as int
    }

    /// A viewer that has accepted nothing yet.
    pub fn new() -> (r: PacketStatus)
        ensures
            r.wf_spec(),
            r.queue_spec().len() == 0,
            r.index_spec() == 0,
    {
        PacketStatus { index: 0, queue: Vec::new() }
    }

    /// The last sequence number accepted; zero before any.
    pub fn index(&self) -> (r: i16)
        ensures
            r as int == self.index_spec(),
    {
        self.index
    }

    /// The accepted samples, in order.
    pub fn queue(&self) -> (r: &Vec<Data>)
        ensures
            r@ == self.queue_spec(),
    {
        &self.queue
    }

    /// Whether the queue has reached its bound: the fatal condition.
    pub fn saturated(&self) -> (r: bool)
        requires
            self.wf_spec(),
        ensures
            r == (self.queue_spec().len() == QMAX),
    {
        self.queue.len() >= QMAX
    }

    /// The sample to render this frame: the newest accepted one, if any.
    pub fn current(&self) -> (r: Option<Data>)
        requires
            self.wf_spec(),
        ensures
            r == if self.queue_spec().len() == 0 {
                None
            } else {
                Some(self.queue_spec().last())
            },
    {
        if self.index == 0 {
            None
        } else {
            let i: usize = (self.index - 1) as usize;
            Some(self.queue[i])
        }
    }

    /// Handles the data packet `recv`. The next sample in order is appended and
    /// acknowledged; a duplicate of the last accepted one is acknowledged and
    /// dropped; any other sample reveals a gap and is answered by a NAK for the
    /// sequence number just before its own, after which the caller reads the
    /// retransmission and hands it to `complete_repair`. Returns the control
    /// message to send, if any.
    pub fn packet_validation(&mut self, recv: &Data) -> (r: Option<ClientResponse>)
        requires
            old(self).wf_spec(),
        ensures
            final(self).wf_spec(),
            final(self).queue_spec() == accept(old(self).queue_spec(), *recv),
            r == reply(old(self).index_spec(), old(self).queue_spec().len() == QMAX, *recv),
            r matches Some(c) ==> (c.packet_index != 0 ==> c.packet_index == recv.packet_index - 1),
    {
        if self.queue.len() >= QMAX || recv.packet_index == i16::MIN {
            return None;
        }
        let delta: i32 = recv.packet_index as i32 - self.index as i32;
        if delta == 1 {
            self.append_in_order(recv);
            Some(ClientResponse::ack())
        } else if delta == 0 {
            Some(ClientResponse::ack())
        } else {
            Some(ClientResponse::nak(recv.packet_index - 1))
        }
    }

    /// Offers `recv` to the queue: appended when it is the next in order.
    fn append_in_order(&mut self, recv: &Data)
        requires
            old(self).wf_spec(),
        ensures
            final(self).wf_spec(),
            final(self).queue_spec() == accept(old(self).queue_spec(), *recv),
    {
        if self.queue.len() < QMAX && recv.packet_index as i32 == self.index as i32 + 1 {
            self.queue.push(*recv);
            self.index = recv.packet_index;
            proof {
                assert forall|i: int| 0 <= i < self.queue@.len() implies
                    #[trigger] self.queue@[i].packet_index == i + 1 by {
                    if i < old(self).queue@.len() {
                        assert(self.queue@[i] == old(self).queue@[i]);
                    }
                }
            }
        }
    }

    /// Completes a gap repair once the retransmission `repair` has been read
    /// after the NAK that `recv` caused: `repair` takes its slot first, then
    /// `recv` the next one, each only if it is next in order. A repair that
    /// never came is not reported here, and leaves the state as it was.
    pub fn complete_repair(&mut self, recv: &Data, repair: &Data)
        requires
            old(self).wf_spec(),
        ensures
            final(self).wf_spec(),
            final(self).queue_spec() == repaired(old(self).queue_spec(), *recv, *repair),
    {
        self.append_in_order(repair);
        self.append_in_order(recv);
    }
}

/// Offering any sample, or completing any repair, keeps a well-ordered queue
/// well ordered: element `i` carries `i + 1`, and the last element carries the
/// length, which is what the viewer's `index` records.
pub proof fn lemma_order_preserved(q: Seq<Data>, s: Data, repair: Data)
    requires
        well_ordered(q),
    ensures
        well_ordered(accept(q, s)),
        well_ordered(repaired(q, s, repair)),
        accept(q, s).len() > 0 ==> accept(q, s).last().packet_index == accept(q, s).len(),
        repaired(q, s, repair).len() > 0 ==> repaired(q, s, repair).last().packet_index
            == repaired(q, s, repair).len(),
{
    lemma_accept_well_ordered(q, s);
    lemma_accept_well_ordered(q, repair);
    lemma_accept_well_ordered(accept(q, repair), s);
}

proof fn lemma_accept_well_ordered(q: Seq<Data>, s: Data)
    requires
        well_ordered(q),
    ensures
        well_ordered(accept(q, s)),
{
    let r = accept(q, s);
    assert forall|i: int| 0 <= i < r.len() implies #[trigger] r[i].packet_index == i + 1 by {
        if i < q.len() {
            assert(r[i] == q[i]);
        }
    }
}

/// Delivering the same sample twice leaves the queue as delivering it once,
/// and when the first delivery was accepted, the second is acknowledged.
pub proof fn lemma_duplicate_is_idempotent(q: Seq<Data>, s: Data)
    requires
        well_ordered(q),
    ensures
        accept(accept(q, s), s) == accept(q, s),
        accept(q, s) != q ==> reply(accept(q, s).len() as int, false, s) == Some(
            ClientResponse { packet_index: 0 },
        ),
{
}

/// Losing sample `a` between the in-order arrivals that end in `q` and the
/// arrival of its successor `b`, then repairing it by NAK, ends in the same
/// queue as the lossless delivery of `a` then `b`; the NAK that `b` causes
/// asks for exactly `a`.
pub proof fn lemma_single_loss_repaired(q: Seq<Data>, a: Data, b: Data)
    requires
        well_ordered(q),
        q.len() + 2 <= QMAX,
        a.packet_index == q.len() + 1,
        b.packet_index == q.len() + 2,
    ensures
        accept(q, b) == q,
        reply(q.len() as int, false, b) == Some(ClientResponse { packet_index: a.packet_index }),
        repaired(accept(q, b), b, a) == accept(accept(q, a), b),
{
}

/// Starting from nothing, the first sample ever accepted carries sequence
/// number one, whether it arrives in order or by repair.
pub proof fn lemma_first_accepted_is_one(s: Data, repair: Data)
    ensures
        accept(Seq::empty(), s).len() > 0 ==> s.packet_index == 1,
        repaired(Seq::empty(), s, repair).len() > 0 ==> repaired(Seq::empty(), s, repair)[0].packet_index == 1,
{
    lemma_order_preserved(Seq::empty(), s, repair);
}

/// A queue at its bound takes nothing more and answers nothing: the only way
/// on is the fatal path.
pub proof fn lemma_full_queue_is_final(q: Seq<Data>, s: Data, repair: Data)
    requires
        well_ordered(q),
        q.len() == QMAX,
    ensures
        accept(q, s) == q,
        repaired(q, s, repair) == q,
        reply(q.len() as int, true, s) is None,
{
}

} // verus!
