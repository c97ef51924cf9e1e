//! The simulator side: sequencing, the retransmit history, and NAK service.

use vstd::prelude::*;
use crate::arena::{axis_step, inside_arena, update_movement, Point, ARENA_HEIGHT, ARENA_WIDTH};
use crate::wire::{ClientResponse, Data};

verus! {

/// Number of most recent samples kept for retransmission.
pub const HISTORY_LEN: usize = 500;

/// Milliseconds between two diagnostic snapshots of the history.
pub const DIAGNOSTIC_PERIOD_MS: u64 = 500;

/// Sequence numbers strictly increase along `s`.
pub open spec fn ascending(s: Seq<Data>) -> bool {
    forall|i: int, j: int| 0 <= i < j < s.len() ==> s[i].packet_index < s[j].packet_index
}

/// Some element of `s` carries sequence number `seq`.
pub open spec fn holds_seq(s: Seq<Data>, seq: i16) -> bool {
    exists|i: int| 0 <= i < s.len() && s[i].packet_index == seq
}

/// Finds the position of the sample whose sequence number is the one `k` asks
/// for. Any position returned holds such a sample; when the samples are
/// ordered by sequence number, `None` means that none of them does.
pub fn binary_search(k: &ClientResponse, items: &Vec<Data>) -> (r: Option<usize>)
    ensures
        r matches Some(i) ==> i < items@.len() && items@[i as int].packet_index == k.packet_index,
        r is None && ascending(items@) ==> !holds_seq(items@, k.packet_index),
{
    let mut low: usize = 0;
    let mut high: usize = items.len();
    while low < high
        invariant
            low <= high <= items@.len(),
            ascending(items@) ==> forall|i: int| 0 <= i < low ==> items@[i].packet_index < k.packet_index,
            ascending(items@) ==> forall|i: int| high <= i < items@.len() ==> items@[i].packet_index > k.packet_index,
        decreases high - low,
    {
        let middle = low + (high - low) / 2;
        let current = items[middle].packet_index;
        if current == k.packet_index {
            return Some(middle);
        } else if current > k.packet_index {
            high = middle;
        } else {
            low = middle + 1;
        }
    }
    None
}

/// The simulator's state: the ball's motion, the next sequence number to
/// stamp, and the most recent samples, kept to answer NAKs.
pub struct Sender {
    position: Point,
    velocity: Point,
    next_seq: i16,
    history: Vec<Data>,
    lossy: bool,
}

impl Sender {
    /// The history holds consecutive sequence numbers ending just below
    /// `next_seq`, all at least one; the motion stays inside the arena.
    pub closed spec fn wf(&self) -> bool {
        &&& self.position.within_walls()
        &&& self.velocity.slow_enough()
        &&& 1 <= self.next_seq
        &&& self.history@.len() < self.next_seq
        &&& forall|i: int| 0 <= i < self.history@.len() ==>
                #[trigger] self.history@[i].packet_index == self.next_seq - self.history@.len() + i
    }

    pub closed spec fn next_seq_spec(&self) -> i16 {
        self.next_seq
    }

    pub closed spec fn history_spec(&self) -> Seq<Data> {
        self.history@
    }

    pub closed spec fn position_spec(&self) -> Point {
        self.position
    }

    pub closed spec fn velocity_spec(&self) -> Point {
        self.velocity
    }

    pub closed spec fn lossy_spec(&self) -> bool {
        self.lossy
    }

    /// A sender with its ball at `position` moving by `velocity` each tick, and
    /// with the loss simulation on or off. `None` when the ball would not start
    /// strictly between the walls, or moves faster than the wall padding.
    pub fn new(position: Point, velocity: Point, lossy: bool) -> (r: Option<Sender>)
        ensures
            r is Some <==> position.within_walls() && velocity.slow_enough(),
            r matches Some(s) ==> {
                &&& s.wf()
                &&& s.next_seq_spec() == 1
                &&& s.history_spec().len() == 0
                &&& s.position_spec() == position
                &&& s.velocity_spec() == velocity
                &&& s.lossy_spec() == lossy
            },
    {
        let limit: i64 = crate::arena::ARENA_WIDTH / 2 - crate::arena::BALL_RADIUS;
        let limit_y: i64 = crate::arena::ARENA_HEIGHT / 2 - crate::arena::BALL_RADIUS;
        let pad: i64 = crate::arena::WALL_PADDING;
        if -limit < position.x && position.x < limit && -limit_y < position.y && position.y < limit_y
            && -pad <= velocity.x && velocity.x <= pad && -pad <= velocity.y && velocity.y <= pad
        {
            Some(Sender { position, velocity, next_seq: 1, history: Vec::new(), lossy })
        } else {
            None
        }
    }

    /// Advances the ball one tick, stamps the new position with the next
    /// sequence number and records it in the history. `None`, with nothing
    /// changed, once the sequence numbers are used up: the stream cannot go on
    /// without reusing one.
    pub fn produce(&mut self) -> (r: Option<Data>)
        requires
            old(self).wf(),
        ensures
            final(self).wf(),
            final(self).lossy_spec() == old(self).lossy_spec(),
            old(self).next_seq_spec() == i16::MAX ==> r is None && *final(self) == *old(self),
            old(self).next_seq_spec() < i16::MAX ==> (r matches Some(d) && {
                &&& d.packet_index == old(self).next_seq_spec()
                &&& (d.x as int, final(self).velocity_spec().x as int) == axis_step(
                    old(self).position_spec().x as int,
                    old(self).velocity_spec().x as int,
                    ARENA_WIDTH as int,
                )
                &&& (d.y as int, final(self).velocity_spec().y as int) == axis_step(
                    old(self).position_spec().y as int,
                    old(self).velocity_spec().y as int,
                    ARENA_HEIGHT as int,
                )
                &&& final(self).position_spec() == (Point { x: d.x, y: d.y })
                &&& final(self).next_seq_spec() == old(self).next_seq_spec() + 1
                &&& final(self).history_spec() == old(self).history_spec().push(d)
                &&& forall|i: int| 0 <= i < old(self).history_spec().len()
                    ==> #[trigger] old(self).history_spec()[i].packet_index < d.packet_index
                &&& inside_arena(d.x as int, ARENA_WIDTH as int)
                &&& inside_arena(d.y as int, ARENA_HEIGHT as int)
            }),
    {
        if self.next_seq == i16::MAX {
            return None;
        }
        let p = update_movement(&mut self.position, &mut self.velocity);
        let d = Data { x: p.x, y: p.y, packet_index: self.next_seq };
        self.history.push(d);
        self.next_seq = self.next_seq + 1;
        Some(d)
    }

    /// Whether `d` goes on the wire: with the loss simulation on, every sample
    /// whose sequence number is a multiple of three is held back.
    pub fn should_transmit(&self, d: &Data) -> (r: bool)
        ensures
            r == !(self.lossy_spec() && d.packet_index % 3 == 0),
    {
        !(self.lossy && d.packet_index % 3 == 0)
    }

    /// The sample to send in answer to `c`: the one it asks for when `c` is a
    /// NAK and that sample is still in the history; otherwise nothing.
    pub fn serve(&self, c: &ClientResponse) -> (r: Option<Data>)
        requires
            self.wf(),
        ensures
            r is Some <==> c.packet_index != 0 && holds_seq(self.history_spec(), c.packet_index),
            r matches Some(d) ==> d.packet_index == c.packet_index && self.history_spec().contains(d),
            forall|i: int| 0 <= i < self.history_spec().len() && c.packet_index != 0
                && #[trigger] self.history_spec()[i].packet_index == c.packet_index
                ==> r == Some(self.history_spec()[i]),
    {
        if c.packet_index == 0 {
            return None;
        }
        proof {
            lemma_sequence_never_reused(self);
        }
        match binary_search(c, &self.history) {
            Some(i) => {
                let d = self.history[i];
                proof {
                    assert(self.history@[i as int] == d);
                    assert forall|j: int| 0 <= j < self.history@.len()
                        && #[trigger] self.history@[j].packet_index == c.packet_index implies j == i by {
                        assert(self.history@[j].packet_index == self.next_seq - self.history@.len() + j);
                        assert(self.history@[i as int].packet_index == self.next_seq - self.history@.len() + i);
                    }
                }
                Some(d)
            },
            None => None,
        }
    }

    /// Drops all but the newest `HISTORY_LEN` samples from the history, and
    /// says whether `elapsed_ms` since the last diagnostic snapshot is long
    /// enough for the next one.
    pub fn queue_management(&mut self, elapsed_ms: u64) -> (r: bool)
        requires
            old(self).wf(),
        ensures
            final(self).wf(),
            r == (elapsed_ms >= DIAGNOSTIC_PERIOD_MS),
            final(self).history_spec() == if old(self).history_spec().len() > HISTORY_LEN {
                old(self).history_spec().subrange(
                    old(self).history_spec().len() - HISTORY_LEN,
                    old(self).history_spec().len() as int,
                )
            } else {
                old(self).history_spec()
            },
            final(self).next_seq_spec() == old(self).next_seq_spec(),
            final(self).position_spec() == old(self).position_spec(),
            final(self).velocity_spec() == old(self).velocity_spec(),
            final(self).lossy_spec() == old(self).lossy_spec(),
    {
        let ghost h0 = self.history@;
        while self.history.len() > HISTORY_LEN
            invariant
                self.wf(),
                h0.len() >= self.history@.len(),
                self.history@.len() >= HISTORY_LEN || self.history@.len() == h0.len(),
                self.history@ == h0.subrange(h0.len() - self.history@.len(), h0.len() as int),
                self.next_seq == old(self).next_seq,
                self.position == old(self).position,
                self.velocity == old(self).velocity,
                self.lossy == old(self).lossy,
                h0 == old(self).history@,
            decreases self.history@.len(),
        {
            let ghost before = self.history@;
            self.history.remove(0);
            proof {
                assert(self.history@ =~= h0.subrange(h0.len() - self.history@.len(), h0.len() as int));
                assert forall|i: int| 0 <= i < self.history@.len() implies
                    #[trigger] self.history@[i].packet_index == self.next_seq - self.history@.len() + i by {
                    assert(self.history@[i] == before[i + 1]);
                }
            }
        }
        proof {
            if h0.len() <= HISTORY_LEN {
                assert(self.history@ =~= h0);
            }
        }
        elapsed_ms >= DIAGNOSTIC_PERIOD_MS
    }

    /// Whether the loss simulation is on.
    pub fn lossy(&self) -> (r: bool)
        ensures
            r == self.lossy_spec(),
    {
        self.lossy
    }

    /// The sequence number the next sample will carry.
    pub fn next_seq(&self) -> (r: i16)
        ensures
            r == self.next_seq_spec(),
    {
        self.next_seq
    }

    /// The samples kept for retransmission, oldest first.
    pub fn history(&self) -> (r: &Vec<Data>)
        ensures
            r@ == self.history_spec(),
    {
        &self.history
    }
}

/// Within one session no two samples of the history share a sequence number:
/// they are consecutive, ending just below the next one to be stamped, and so
/// below every sample produced later. A sender starts at one, so the `i`-th
/// sample it produces carries `i`.
pub proof fn lemma_sequence_never_reused(s: &Sender)
    requires
        s.wf(),
    ensures
        ascending(s.history_spec()),
        forall|i: int| 0 <= i < s.history_spec().len() ==>
            #[trigger] s.history_spec()[i].packet_index == s.next_seq_spec() - s.history_spec().len() + i,
        forall|i: int| 0 <= i < s.history_spec().len() ==>
            1 <= #[trigger] s.history_spec()[i].packet_index < s.next_seq_spec(),
{
    assert forall|i: int, j: int| 0 <= i < j < s.history@.len() implies
        s.history@[i].packet_index < s.history@[j].packet_index by {
        assert(s.history@[i].packet_index == s.next_seq - s.history@.len() + i);
        assert(s.history@[j].packet_index == s.next_seq - s.history@.len() + j);
    }
}

} // verus!
