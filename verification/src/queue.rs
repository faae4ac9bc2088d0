//! The queue of frames that wait to be sent. It hands them out greatest
//! first, in the order of `frame_lt`, as a max-heap of `ClientMessage` does.

use vstd::prelude::*;
use vstd::multiset::Multiset;
use crate::gateway::{ClientMessage, FrameKey, frame_lt, frame_before, lemma_frame_order};

verus! {

broadcast use vstd::seq_lib::group_to_multiset_ensures;

/// The keys of a sequence of frames.
pub open spec fn frame_keys(s: Seq<ClientMessage>) -> Seq<FrameKey> {
    s.map_values(|m: ClientMessage| m.key())
}

/// No frame of `s` comes after one that stands before it.
pub open spec fn sorted_greatest_first(s: Seq<FrameKey>) -> bool {
    forall|i: int, j: int| 0 <= i < j < s.len() ==> !frame_lt(#[trigger] s[i], #[trigger] s[j])
}

/// `k` is a greatest element of `m`.
pub open spec fn is_greatest(m: Multiset<FrameKey>, k: FrameKey) -> bool {
    &&& m.contains(k)
    &&& forall|x: FrameKey| m.contains(x) ==> !frame_lt(k, x)
}

/// A priority queue of frames.
pub struct MessageQueue {
    items: Vec<ClientMessage>,
}

impl View for MessageQueue {
    type V = Multiset<FrameKey>;

    closed spec fn view(&self) -> Multiset<FrameKey> {
        frame_keys(self.items@).to_multiset()
    }
}

impl MessageQueue {
    /// An empty queue.
    pub fn new() -> (q: MessageQueue)
        ensures
            q@ =~= Multiset::empty(),
    {
        let q = MessageQueue { items: Vec::new() };
        assert(frame_keys(q.items@) =~= Seq::empty());
        q
    }

    /// The number of frames in the queue.
    pub fn len(&self) -> (n: usize)
        ensures
            n == self@.len(),
    {
        self.items.len()
    }

    /// Whether the queue is empty.
    pub fn is_empty(&self) -> (b: bool)
        ensures
            b == (self@.len() == 0),
    {
        self.items.len() == 0
    }

    /// Adds a frame.
    pub fn push(&mut self, m: ClientMessage)
        ensures
            final(self)@ == old(self)@.insert(m.key()),
    {
        let ghost k = m.key();
        self.items.push(m);
        assert(frame_keys(self.items@) =~= frame_keys(old(self).items@).push(k));
    }

    /// Removes and returns a greatest frame, or `None` when the queue is empty.
    pub fn pop(&mut self) -> (r: Option<ClientMessage>)
        ensures
            old(self)@.len() == 0 ==> r is None && final(self)@ == old(self)@,
            old(self)@.len() > 0 ==> (r matches Some(m) && is_greatest(old(self)@, m.key())
                && final(self)@ == old(self)@.remove(m.key())),
    {
        let n = self.items.len();
        if n == 0 {
            return None;
        }
        let ghost keys = frame_keys(self.items@);
        let mut best: usize = 0;
        let mut i: usize = 1;
        proof {
            lemma_frame_order(keys[0], keys[0], keys[0]);
        }
        while i < n
            invariant
                n == self.items@.len(),
                keys == frame_keys(self.items@),
                best < i <= n,
                forall|j: int| 0 <= j < i ==> !frame_lt(keys[best as int], #[trigger] keys[j]),
            decreases n - i,
        {
            if frame_before(&self.items[best], &self.items[i]) {
                proof {
                    assert forall|j: int| 0 <= j < i + 1 implies !frame_lt(keys[i as int], #[trigger] keys[j]) by {
                        lemma_frame_order(keys[best as int], keys[i as int], keys[j]);
                        lemma_frame_order(keys[i as int], keys[i as int], keys[i as int]);
                    }
                }
                best = i;
            }
            i = i + 1;
        }
        let m = self.items.remove(best);
        proof {
            assert(frame_keys(self.items@) =~= keys.remove(best as int));
            assert(keys[best as int] == m.key());
            assert forall|x: FrameKey| keys.to_multiset().contains(x) implies !frame_lt(m.key(), x) by {
                let j = choose|j: int| 0 <= j < keys.len() && keys[j] == x;
            }
        }
        Some(m)
    }

    /// Removes every frame and returns their bodies, greatest frame first.
    pub fn drain_bodies(&mut self) -> (bodies: Vec<String>)
        ensures
            final(self)@.len() == 0,
            exists|order: Seq<FrameKey>|
                {
                    &&& order.to_multiset() == old(self)@
                    &&& sorted_greatest_first(order)
                    &&& bodies@.map_values(|b: String| b@) == order.map_values(|k: FrameKey| k.0)
                },
    {
        let mut bodies: Vec<String> = Vec::new();
        let ghost mut order: Seq<FrameKey> = Seq::empty();
        let ghost start = self@;
        loop
            invariant
                order.to_multiset().add(self@) == start,
                sorted_greatest_first(order),
                forall|i: int, x: FrameKey|
                    #![trigger order[i], self@.contains(x)]
                    0 <= i < order.len() && self@.contains(x) ==> !frame_lt(order[i], x),
                bodies@.map_values(|b: String| b@) == order.map_values(|k: FrameKey| k.0),
            ensures
                self@.len() == 0,
                order.to_multiset() == start,
                sorted_greatest_first(order),
                bodies@.map_values(|b: String| b@) == order.map_values(|k: FrameKey| k.0),
            decreases self@.len(),
        {
            let ghost before = self@;
            match self.pop() {
                None => {
                    assert(self@ =~= Multiset::empty());
                    assert(order.to_multiset().add(self@) =~= order.to_multiset());
                    break;
                },
                Some(m) => {
                    let ghost k = m.key();
                    proof {
                        assert(order.push(k).to_multiset() =~= order.to_multiset().insert(k));
                        assert(order.push(k).to_multiset().add(self@) =~= order.to_multiset().add(
                            before,
                        ));
                        assert forall|i: int, j: int|
                            0 <= i < j < order.push(k).len() implies !frame_lt(
                            #[trigger] order.push(k)[i],
                            #[trigger] order.push(k)[j],
                        ) by {
                            if j == order.len() {
                                assert(before.contains(k));
                            }
                        }
                        assert forall|i: int, x: FrameKey|
                            #![trigger order.push(k)[i], self@.contains(x)]
                            0 <= i < order.push(k).len() && self@.contains(x) implies !frame_lt(
                            order.push(k)[i],
                            x,
                        ) by {
                            assert(before.contains(x));
                        }
                    }
                    let ghost prev = bodies@;
                    let ghost body_view = m.body@;
                    assert(body_view == k.0);
                    bodies.push(m.body);
                    proof {
                        assert(bodies@ == prev.push(bodies@[prev.len() as int]));
                        assert(bodies@.map_values(|b: String| b@) =~= prev.map_values(|b: String| b@).push(k.0));
                        order = order.push(k);
                        assert(bodies@.map_values(|b: String| b@) =~= order.map_values(
                            |k: FrameKey| k.0,
                        ));
                    }
                },
            }
        }
        bodies
    }
}

} // verus!
