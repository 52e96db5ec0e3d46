//! OutboundHeap: the priority queue of outbound frames. Frames leave highest
//! priority first, and in the order they were pushed within one priority.

use vstd::prelude::*;
use crate::frame::{Frame, FrameView, decode_spec};

verus! {

#[verifier::external_type_specification]
#[verifier::external_body]
pub struct ExWaker(std::task::Waker);

/// Makes a copy of a waker (`Waker::clone`); nothing is stated of the copy, which
/// wakes the same task.
#[verifier::external_body]
fn waker_clone(w: &std::task::Waker) -> std::task::Waker {
    w.clone()
}

/// Wakes the task of a waker without consuming it (`Waker::wake_by_ref`); its effect
/// lies outside this library and is not stated.
#[verifier::external_body]
fn waker_wake_by_ref(w: &std::task::Waker) {
    w.wake_by_ref()
}

/// Frame priority, most urgent first.
#[derive(Debug, Clone, Copy, PartialEq, Eq, PartialOrd, Ord)]
pub enum Priority {
    Realtime,
    Normal,
    Bulk,
}

impl Priority {
    /// The rank of a priority: 0 for Realtime, 1 for Normal, 2 for Bulk.
    pub open spec fn rank_spec(self) -> nat {
        match self {
            Priority::Realtime => 0,
            Priority::Normal => 1,
            Priority::Bulk => 2,
        }
    }

    /// The rank of a priority: 0 for Realtime, 1 for Normal, 2 for Bulk.
    pub fn rank(self) -> (r: u8)
        ensures
            r == self.rank_spec(),
    {
        match self {
            Priority::Realtime => 0,
            Priority::Normal => 1,
            Priority::Bulk => 2,
        }
    }
}

/// Realtime frames leave before Normal ones, and Normal before Bulk: the ranks are
/// 0, 1 and 2, as the priorities' values are.
pub proof fn lemma_priority_ranks()
    ensures
        Priority::Realtime.rank_spec() == 0,
        Priority::Normal.rank_spec() == 1,
        Priority::Bulk.rank_spec() == 2,
{
}

/// A queued frame with its priority and its push sequence number.
struct Queued {
    priority: Priority,
    seq: u64,
    frame: Frame,
}

/// The mathematical value of a queued frame.
pub struct QueuedView {
    pub priority: Priority,
    pub seq: u64,
    pub frame: FrameView,
}

/// Whether `a` leaves the queue before `b`: more urgent, or as urgent and pushed earlier.
pub open spec fn goes_before(a: QueuedView, b: QueuedView) -> bool {
    a.priority.rank_spec() < b.priority.rank_spec() || (a.priority.rank_spec() == b.priority.rank_spec()
        && a.seq < b.seq)
}

/// Whether `q` is in leaving order, with every sequence number at most `last_seq`.
pub open spec fn queue_ordered(q: Seq<QueuedView>, last_seq: u64) -> bool {
    &&& forall|i: int, j: int| 0 <= i < j < q.len() ==> goes_before(#[trigger] q[i], #[trigger] q[j])
    &&& forall|i: int| 0 <= i < q.len() ==> #[trigger] q[i].seq <= last_seq
}

/// The number of leading entries of `q` that are at most as urgent as rank `r`: where a
/// newly pushed frame of rank `r` goes.
pub open spec fn slot_for(q: Seq<QueuedView>, r: nat) -> nat
    decreases q.len(),
{
    if q.len() == 0 || q[0].priority.rank_spec() > r {
        0
    } else {
        1 + slot_for(q.skip(1), r)
    }
}

/// The queue after pushing `frame` with `priority` as push number `seq`.
pub open spec fn push_spec(q: Seq<QueuedView>, priority: Priority, seq: u64, frame: FrameView) -> Seq<
    QueuedView,
> {
    q.insert(slot_for(q, priority.rank_spec()) as int, QueuedView { priority, seq, frame })
}

/// The frames of a queue, in leaving order.
pub open spec fn frames_of(q: Seq<QueuedView>) -> Seq<FrameView> {
    q.map_values(|e: QueuedView| e.frame)
}

/// Shared priority queue of outbound frames; the writer drains it.
pub struct OutboundHeap {
    entries: Vec<Queued>,
    seq: u64,
    waker: Option<std::task::Waker>,
    /// How many wakers have been registered; the registered one is the last of them.
    registrations: Ghost<nat>,
    /// Every wake made, in order, each by the number of the registration it woke.
    wake_log: Ghost<Seq<nat>>,
}

impl OutboundHeap {
    /// The queued frames in leaving order.
    pub closed spec fn queue(&self) -> Seq<QueuedView> {
        self.entries@.map_values(
            |e: Queued| QueuedView { priority: e.priority, seq: e.seq, frame: e.frame@ },
        )
    }

    /// The sequence number of the last push (0 before any).
    pub closed spec fn last_seq(&self) -> u64 {
        self.seq
    }

    /// Whether a waker is registered.
    pub closed spec fn has_waker(&self) -> bool {
        self.waker is Some
    }

    /// How many times `register_waker` has been called: the registered waker, if
    /// any, is the one of registration number `registered()` (counting from 1).
    pub closed spec fn registered(&self) -> nat {
        self.registrations@
    }

    /// The wakes made so far, in order, each given by the registration number of
    /// the waker that was woken.
    pub closed spec fn wakes(&self) -> Seq<nat> {
        self.wake_log@
    }

    /// The heap's invariant, which every heap keeps: its queue is in leaving order.
    pub open spec fn wf(&self) -> bool {
        queue_ordered(self.queue(), self.last_seq())
    }

    #[verifier::type_invariant]
    spec fn ordered(&self) -> bool {
        &&& self.wf()
        &&& self.has_waker() ==> self.registered() > 0
    }

    pub fn new() -> (r: OutboundHeap)
        ensures
            r.wf(),
            r.queue() == Seq::<QueuedView>::empty(),
            r.last_seq() == 0,
            !r.has_waker(),
            r.registered() == 0,
            r.wakes() == Seq::<nat>::empty(),
    {
        let r = OutboundHeap {
            entries: Vec::new(),
            seq: 0,
            waker: None,
            registrations: Ghost(0),
            wake_log: Ghost(Seq::empty()),
        };
        assert(r.queue() =~= Seq::<QueuedView>::empty());
        r
    }

    /// Where a frame of rank `rank` goes: after every entry at most as urgent.
    fn slot(&self, rank: u8) -> (k: usize)
        ensures
            k == slot_for(self.queue(), rank as nat),
            k <= self.queue().len(),
    {
        proof {
            use_type_invariant(self);
        }
        let ghost q = self.queue();
        let n = self.entries.len();
        let mut k: usize = 0;
        assert(q.skip(0) =~= q);
        while k < n && self.entries[k].priority.rank() <= rank
            invariant
                n == self.entries@.len(),
                q == self.queue(),
                k <= n,
                slot_for(q, rank as nat) == k + slot_for(q.skip(k as int), rank as nat),
            decreases n - k,
        {
            proof {
                let t = q.skip(k as int);
                assert(t[0] == q[k as int]);
                assert(t.skip(1) =~= q.skip(k + 1));
            }
            k = k + 1;
        }
        proof {
            let t = q.skip(k as int);
            if k < n {
                assert(t[0] == q[k as int]);
            }
        }
        k
    }

    /// Pushes a frame; always succeeds and wakes the registered writer, if any, once.
    pub fn push(&mut self, priority: Priority, frame: Frame) -> (r: bool)
        requires
            old(self).last_seq() < u64::MAX,
        ensures
            r,
            final(self).wf(),
            final(self).last_seq() == old(self).last_seq() + 1,
            final(self).queue() == push_spec(old(self).queue(), priority, final(self).last_seq(), frame@),
            final(self).has_waker() == old(self).has_waker(),
            final(self).registered() == old(self).registered(),
            final(self).wakes() == (if old(self).has_waker() {
                old(self).wakes().push(old(self).registered())
            } else {
                old(self).wakes()
            }),
    {
        proof {
            use_type_invariant(&*self);
        }
        let ghost q = self.queue();
        let seq = self.seq + 1;
        let k = self.slot(priority.rank());
        proof {
            lemma_slot_split(q, priority.rank_spec());
        }
        let ghost item = QueuedView { priority, seq, frame: frame@ };
        let mut entries: Vec<Queued> = Vec::new();
        std::mem::swap(&mut entries, &mut self.entries);
        assert(self.queue() =~= Seq::<QueuedView>::empty());
        entries.insert(k, Queued { priority, seq, frame });
        proof {
            lemma_push_ordered(q, (seq - 1) as u64, item, k as int);
            let nq = entries@.map_values(
                |e: Queued| QueuedView { priority: e.priority, seq: e.seq, frame: e.frame@ },
            );
            assert(nq =~= q.insert(k as int, item));
        }
        self.seq = seq;
        self.entries = entries;
        proof {
            assert(self.queue() =~= q.insert(k as int, item));
            assert(self.queue() == push_spec(q, priority, seq, frame@));
        }
        let woke = match &self.waker {
            Some(w) => {
                waker_wake_by_ref(w);
                true
            },
            None => false,
        };
        if woke {
            self.wake_log = Ghost(self.wake_log@.push(self.registrations@));
        }
        true
    }

    /// Decodes `data` as a frame and pushes it; false (and nothing pushed) if `data`
    /// does not start with a valid frame.
    pub fn push_raw(&mut self, priority: Priority, data: Vec<u8>) -> (r: bool)
        requires
            old(self).last_seq() < u64::MAX,
        ensures
            final(self).wf(),
            final(self).has_waker() == old(self).has_waker(),
            final(self).registered() == old(self).registered(),
            r == decode_spec(data@) is Some,
            !r ==> final(self).queue() == old(self).queue() && final(self).last_seq() == old(self).last_seq()
                && final(self).wakes() == old(self).wakes(),
            r ==> final(self).wakes() == (if old(self).has_waker() {
                old(self).wakes().push(old(self).registered())
            } else {
                old(self).wakes()
            }),
            r ==> final(self).last_seq() == old(self).last_seq() + 1 && final(self).queue() == push_spec(
                old(self).queue(),
                priority,
                final(self).last_seq(),
                decode_spec(data@).unwrap().0,
            ),
    {
        proof {
            use_type_invariant(&*self);
        }
        match Frame::decode(data.as_slice()) {
            Some((frame, _)) => self.push(priority, frame),
            None => false,
        }
    }

    /// Removes and returns every frame, in leaving order.
    pub fn drain(&mut self) -> (r: Vec<Frame>)
        ensures
            r@.map_values(|f: Frame| f@) == frames_of(old(self).queue()),
            final(self).queue() == Seq::<QueuedView>::empty(),
            final(self).last_seq() == old(self).last_seq(),
            final(self).has_waker() == old(self).has_waker(),
            final(self).registered() == old(self).registered(),
            final(self).wakes() == old(self).wakes(),
            final(self).wf(),
    {
        proof {
            use_type_invariant(&*self);
        }
        let ghost q = self.queue();
        let mut entries: Vec<Queued> = Vec::new();
        std::mem::swap(&mut entries, &mut self.entries);
        assert(self.queue() =~= Seq::<QueuedView>::empty());
        let n = entries.len();
        let mut frames: Vec<Frame> = Vec::with_capacity(n);
        let mut rest = entries;
        let ghost all = rest@;
        // Take the entries from the back, then restore the order.
        let mut back: Vec<Frame> = Vec::with_capacity(n);
        while rest.len() > 0
            invariant
                rest@ == all.take(rest@.len() as int),
                rest@.len() <= all.len(),
                back@.len() == all.len() - rest@.len(),
                forall|i: int| 0 <= i < back@.len() ==> #[trigger] back@[i]@ == all[all.len() - 1 - i].frame@,
            decreases rest@.len(),
        {
            let e = rest.pop().unwrap();
            back.push(e.frame);
            assert(rest@ =~= all.take(rest@.len() as int));
        }
        while back.len() > 0
            invariant
                back@.len() + frames@.len() == all.len(),
                forall|i: int| 0 <= i < back@.len() ==> #[trigger] back@[i]@ == all[all.len() - 1 - i].frame@,
                forall|i: int| 0 <= i < frames@.len() ==> #[trigger] frames@[i]@ == all[i].frame@,
            decreases back@.len(),
        {
            let f = back.pop().unwrap();
            frames.push(f);
        }
        assert(frames@.map_values(|f: Frame| f@) =~= frames_of(q));
        frames
    }

    /// Removes and returns the frame that leaves first, if any.
    pub fn pop(&mut self) -> (r: Option<Frame>)
        ensures
            final(self).wf(),
            final(self).last_seq() == old(self).last_seq(),
            final(self).has_waker() == old(self).has_waker(),
            final(self).registered() == old(self).registered(),
            final(self).wakes() == old(self).wakes(),
            old(self).queue().len() == 0 ==> r is None && final(self).queue() == old(self).queue(),
            old(self).queue().len() > 0 ==> (r matches Some(f) && f@ == old(self).queue()[0].frame
                && final(self).queue() == old(self).queue().drop_first()),
    {
        proof {
            use_type_invariant(&*self);
        }
        if self.entries.len() == 0 {
            return None;
        }
        let ghost q = self.queue();
        let mut entries: Vec<Queued> = Vec::new();
        std::mem::swap(&mut entries, &mut self.entries);
        assert(self.queue() =~= Seq::<QueuedView>::empty());
        let e = entries.remove(0);
        proof {
            let rest = entries@.map_values(
                |e: Queued| QueuedView { priority: e.priority, seq: e.seq, frame: e.frame@ },
            );
            assert(rest =~= q.drop_first());
            assert forall|i: int, j: int| 0 <= i < j < rest.len() implies goes_before(#[trigger] rest[i], #[trigger] rest[j]) by {
                assert(rest[i] == q[i + 1] && rest[j] == q[j + 1]);
            }
            assert forall|i: int| 0 <= i < rest.len() implies #[trigger] rest[i].seq <= self.seq by {
                assert(rest[i] == q[i + 1]);
            }
        }
        self.entries = entries;
        assert(self.queue() =~= q.drop_first());
        Some(e.frame)
    }

    /// Whether another push can be numbered (the push counter has not reached `u64::MAX`).
    pub fn has_seq_room(&self) -> (r: bool)
        ensures
            r == (self.last_seq() < u64::MAX),
    {
        self.seq < u64::MAX
    }

    /// Whether no frame is queued.
    pub fn is_empty(&self) -> (r: bool)
        ensures
            r == (self.queue().len() == 0),
    {
        self.entries.len() == 0
    }

    /// Registers the writer's waker in place of any earlier one: later pushes wake
    /// this one (registration number `registered()`) and no earlier one.
    pub fn register_waker(&mut self, waker: &std::task::Waker)
        ensures
            final(self).queue() == old(self).queue(),
            final(self).last_seq() == old(self).last_seq(),
            final(self).has_waker(),
            final(self).registered() == old(self).registered() + 1,
            final(self).wakes() == old(self).wakes(),
    {
        proof {
            use_type_invariant(&*self);
        }
        let w = waker_clone(waker);
        let ghost n = self.registrations@ + 1;
        self.registrations = Ghost(n);
        self.waker = Some(w);
    }
}

/// In an ordered queue, the entries before the slot of rank `r` are at most as
/// urgent, and those from it on are less urgent.
proof fn lemma_slot_split(q: Seq<QueuedView>, r: nat)
    requires
        forall|i: int, j: int| 0 <= i < j < q.len() ==> goes_before(#[trigger] q[i], #[trigger] q[j]),
    ensures
        slot_for(q, r) <= q.len(),
        forall|i: int| 0 <= i < slot_for(q, r) ==> (#[trigger] q[i]).priority.rank_spec() <= r,
        forall|i: int| slot_for(q, r) <= i < q.len() ==> (#[trigger] q[i]).priority.rank_spec() > r,
    decreases q.len(),
{
    if q.len() == 0 {
    } else if q[0].priority.rank_spec() > r {
        assert forall|i: int| 0 <= i < q.len() implies (#[trigger] q[i]).priority.rank_spec() > r by {
            if i > 0 {
                assert(goes_before(q[0], q[i]));
            }
        }
    } else {
        let t = q.skip(1);
        assert forall|i: int, j: int| 0 <= i < j < t.len() implies goes_before(#[trigger] t[i], #[trigger] t[j]) by {
            assert(t[i] == q[i + 1] && t[j] == q[j + 1]);
        }
        lemma_slot_split(t, r);
        assert forall|i: int| 0 <= i < slot_for(q, r) implies (#[trigger] q[i]).priority.rank_spec() <= r by {
            if i > 0 {
                assert(q[i] == t[i - 1]);
            }
        }
        assert forall|i: int| slot_for(q, r) <= i < q.len() implies (#[trigger] q[i]).priority.rank_spec() > r by {
            assert(q[i] == t[i - 1]);
        }
    }
}

/// Inserting a new entry with the largest sequence number at its slot keeps the queue ordered.
proof fn lemma_push_ordered(q: Seq<QueuedView>, last: u64, item: QueuedView, k: int)
    requires
        queue_ordered(q, last),
        item.seq == last + 1,
        0 <= k <= q.len(),
        forall|i: int| 0 <= i < k ==> (#[trigger] q[i]).priority.rank_spec() <= item.priority.rank_spec(),
        forall|i: int| k <= i < q.len() ==> (#[trigger] q[i]).priority.rank_spec() > item.priority.rank_spec(),
    ensures
        queue_ordered(q.insert(k, item), item.seq),
{
    let p = q.insert(k, item);
    assert forall|i: int, j: int| 0 <= i < j < p.len() implies goes_before(#[trigger] p[i], #[trigger] p[j]) by {
        if i < k {
            if j < k {
                assert(goes_before(q[i], q[j]));
            } else if j == k {
            } else {
                assert(goes_before(q[i], q[j - 1]));
            }
        } else if i == k {
        } else {
            assert(goes_before(q[i - 1], q[j - 1]));
        }
    }
}

/// Frames leave highest priority first and, within one priority, in push order: of
/// two frames pushed one after the other onto an ordered queue, the first one leaves
/// before the second exactly when it is at least as urgent.
pub proof fn lemma_two_pushes_order(
    q: Seq<QueuedView>,
    last: u64,
    pa: Priority,
    fa: FrameView,
    pb: Priority,
    fb: FrameView,
)
    requires
        queue_ordered(q, last),
        last + 2 <= u64::MAX,
    ensures
        ({
            let a = QueuedView { priority: pa, seq: (last + 1) as u64, frame: fa };
            let b = QueuedView { priority: pb, seq: (last + 2) as u64, frame: fb };
            let q2 = push_spec(push_spec(q, pa, (last + 1) as u64, fa), pb, (last + 2) as u64, fb);
            exists|i: int, j: int|
                0 <= i < q2.len() && 0 <= j < q2.len() && q2[i] == a && q2[j] == b && (i < j
                    <==> pa.rank_spec() <= pb.rank_spec())
        }),
{
    let a = QueuedView { priority: pa, seq: (last + 1) as u64, frame: fa };
    let b = QueuedView { priority: pb, seq: (last + 2) as u64, frame: fb };
    let ra = pa.rank_spec();
    let rb = pb.rank_spec();
    lemma_slot_split(q, ra);
    let ka = slot_for(q, ra) as int;
    let q1 = q.insert(ka, a);
    lemma_push_ordered(q, last, a, ka);
    lemma_slot_split(q1, rb);
    let kb = slot_for(q1, rb) as int;
    let q2 = q1.insert(kb, b);
    assert(q1[ka] == a);
    assert(q1 == push_spec(q, pa, (last + 1) as u64, fa));
    assert(q2 == push_spec(q1, pb, (last + 2) as u64, fb));
    let ia = if ra <= rb { ka } else { ka + 1 };
    if ra <= rb {
        assert(ka < kb);
    } else {
        assert(kb <= ka);
    }
    assert(q2[ia] == a);
    assert(q2[kb] == b);
    assert(ia < kb <==> ra <= rb);
    assert(exists|i: int, j: int|
        0 <= i < q2.len() && 0 <= j < q2.len() && q2[i] == a && q2[j] == b && (i < j <==> ra <= rb)) by {
        assert(0 <= ia < q2.len() && 0 <= kb < q2.len() && q2[ia] == a && q2[kb] == b && (ia < kb <==> ra <= rb));
    }
}

} // verus!
