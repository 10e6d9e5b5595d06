//! A priority queue that hands out the entry with the lowest priority first.
use vstd::prelude::*;
use vstd::multiset::Multiset;

verus! {

broadcast use vstd::seq_lib::group_to_multiset_ensures;

/// What one `pop` does: on an empty queue it gives `None` and changes
/// nothing; otherwise it gives an entry of lowest priority and removes it.
pub open spec fn pop_step<T>(m: Multiset<(u64, T)>, r: Option<(u64, T)>, m2: Multiset<(u64, T)>) -> bool {
    &&& m.len() == 0 ==> r is None && m2 == m
    &&& m.len() > 0 ==> (r matches Some(x) && {
        &&& m.contains(x)
        &&& forall|y: (u64, T)| #[trigger] m.contains(y) ==> x.0 <= y.0
        &&& m2 == m.remove(x)
    })
}

/// A run of pops: `states[i]` is what the queue holds before the `i`-th
/// pop, which returns `outs[i]`.
pub open spec fn pop_run<T>(states: Seq<Multiset<(u64, T)>>, outs: Seq<Option<(u64, T)>>) -> bool {
    &&& states.len() == outs.len() + 1
    &&& forall|i: int| 0 <= i < outs.len() ==> #[trigger] pop_step(states[i], outs[i], states[i + 1])
}

/// The entries that the first `k` pops returned.
pub open spec fn popped<T>(outs: Seq<Option<(u64, T)>>, k: int) -> Seq<(u64, T)> {
    Seq::new(k as nat, |i: int| outs[i]->Some_0)
}

/// Entries with priorities; `pop` takes one with the lowest priority.
pub struct MinHeap<T> {
    items: Vec<(u64, T)>,
}

impl<T> View for MinHeap<T> {
    type V = Multiset<(u64, T)>;

    /// The entries held, with their priorities.
    closed spec fn view(&self) -> Multiset<(u64, T)> {
        self.items@.to_multiset()
    }
}

impl<T> MinHeap<T> {
    pub fn new() -> (r: Self)
        ensures
            r@ == Multiset::<(u64, T)>::empty(),
    {
        let r = MinHeap { items: Vec::new() };
        assert(r.items@ =~= Seq::<(u64, T)>::empty());
        r
    }

    /// A queue that holds one entry.
    pub fn singleton(priority: u64, value: T) -> (r: Self)
        ensures
            r@ == Multiset::<(u64, T)>::empty().insert((priority, value)),
    {
        let mut heap = Self::new();
        heap.push(priority, value);
        heap
    }

    pub fn push(&mut self, priority: u64, value: T)
        ensures
            final(self)@ == old(self)@.insert((priority, value)),
    {
        self.items.push((priority, value));
        proof {
            vstd::seq_lib::to_multiset_build(old(self).items@, (priority, value));
        }
    }

    /// Takes an entry with the lowest priority; `None` when the queue is
    /// empty.
    pub fn pop(&mut self) -> (r: Option<(u64, T)>)
        ensures
            pop_step(old(self)@, r, final(self)@),
    {
        proof {
            vstd::seq_lib::to_multiset_len(self.items@);
        }
        if self.items.len() == 0 {
            return None;
        }
        let mut best: usize = 0;
        let mut i: usize = 1;
        while i < self.items.len()
            invariant
                0 <= best < i <= self.items@.len(),
                self.items@ == old(self).items@,
                forall|j: int| 0 <= j < i ==> self.items@[best as int].0 <= #[trigger] self.items@[j].0,
            decreases self.items@.len() - i,
        {
            if self.items[i].0 < self.items[best].0 {
                best = i;
            }
            i += 1;
        }
        let ghost s = self.items@;
        let x = self.items.remove(best);
        proof {
            vstd::seq_lib::to_multiset_remove(s, best as int);
            assert(s.contains(x));
            vstd::seq_lib::to_multiset_contains(s, x);
            assert forall|y: (u64, T)| #[trigger] old(self)@.contains(y) implies x.0 <= y.0 by {
                vstd::seq_lib::to_multiset_contains(s, y);
                let j = choose|j: int| 0 <= j < s.len() && s[j] == y;
                assert(s[best as int].0 <= s[j].0);
            }
        }
        Some(x)
    }
}

/// The first `k` pops of a run on a queue of more than `k` entries.
proof fn lemma_pop_prefix<T>(states: Seq<Multiset<(u64, T)>>, outs: Seq<Option<(u64, T)>>, k: int)
    requires
        pop_run(states, outs),
        0 <= k <= states[0].len(),
        k <= outs.len(),
    ensures
        states[k].len() == states[0].len() - k,
        popped(outs, k).to_multiset().add(states[k]) == states[0],
        forall|i: int| 0 <= i < k ==> #[trigger] outs[i] is Some,
        forall|i: int, j: int| 0 <= i < j < k ==> (#[trigger] outs[i])->Some_0.0 <= (#[trigger] outs[j])->Some_0.0,
        forall|i: int, y: (u64, T)| 0 <= i < k && #[trigger] states[k].contains(y) ==> (#[trigger] outs[i])->Some_0.0 <= y.0,
    decreases k,
{
    if k == 0 {
        assert(popped(outs, 0) =~= Seq::<(u64, T)>::empty());
        assert(popped(outs, 0).to_multiset().add(states[0]) =~= states[0]);
    } else {
        lemma_pop_prefix(states, outs, k - 1);
        let m = states[k - 1];
        assert(pop_step(states[k - 1], outs[k - 1], states[(k - 1) + 1]));
        let x = outs[k - 1]->Some_0;
        assert(m.len() > 0);
        assert(states[k] == m.remove(x));
        assert(popped(outs, k) =~= popped(outs, k - 1).push(x));
        vstd::seq_lib::to_multiset_build(popped(outs, k - 1), x);
        assert(popped(outs, k).to_multiset().add(states[k]) =~= popped(outs, k - 1).to_multiset().add(m));
        assert forall|i: int, y: (u64, T)| 0 <= i < k && #[trigger] states[k].contains(y) implies (#[trigger] outs[i])->Some_0.0 <= y.0 by {
            assert(m.contains(y));
        }
        assert forall|i: int, j: int| 0 <= i < j < k implies (#[trigger] outs[i])->Some_0.0 <= (#[trigger] outs[j])->Some_0.0 by {
            if j == k - 1 {
                assert(m.contains(x));
            }
        }
    }
}

/// Pops on an empty queue give `None` and leave it empty.
proof fn lemma_pop_drained<T>(states: Seq<Multiset<(u64, T)>>, outs: Seq<Option<(u64, T)>>, i: int)
    requires
        pop_run(states, outs),
        states[0].len() <= i <= outs.len(),
        states[states[0].len() as int].len() == 0,
    ensures
        states[i].len() == 0,
        forall|j: int| states[0].len() <= j < i ==> #[trigger] outs[j] is None,
    decreases i,
{
    if i > states[0].len() {
        lemma_pop_drained(states, outs, i - 1);
        assert(pop_step(states[i - 1], outs[i - 1], states[(i - 1) + 1]));
    }
}

/// A queue gives back what was pushed, lowest priority first: on a queue of
/// `n` entries, the first `n` pops return entries with non-decreasing
/// priorities that are together exactly the entries held (duplicates
/// kept), and every pop after them returns `None`.
pub proof fn law_pops_drain_in_order<T>(states: Seq<Multiset<(u64, T)>>, outs: Seq<Option<(u64, T)>>)
    requires
        pop_run(states, outs),
        states[0].len() <= outs.len(),
    ensures
        forall|i: int| 0 <= i < states[0].len() ==> #[trigger] outs[i] is Some,
        forall|i: int, j: int| 0 <= i < j < states[0].len() ==> (#[trigger] outs[i])->Some_0.0 <= (#[trigger] outs[j])->Some_0.0,
        popped(outs, states[0].len() as int).to_multiset() == states[0],
        forall|i: int| states[0].len() <= i < outs.len() ==> #[trigger] outs[i] is None,
{
    let n = states[0].len() as int;
    lemma_pop_prefix(states, outs, n);
    assert(states[n] =~= Multiset::<(u64, T)>::empty());
    assert(popped(outs, n).to_multiset().add(states[n]) =~= popped(outs, n).to_multiset());
    lemma_pop_drained(states, outs, outs.len() as int);
}

/// Entries come out in order of priority: after taking an entry of lowest
/// priority, every entry left has a priority at least as high.
pub proof fn law_pops_in_priority_order<T>(m: Multiset<(u64, T)>, x: (u64, T), y: (u64, T))
    requires
        m.contains(x),
        forall|z: (u64, T)| #[trigger] m.contains(z) ==> x.0 <= z.0,
        m.remove(x).contains(y),
    ensures
        x.0 <= y.0,
{
    assert(m.contains(y));
}

} // verus!
