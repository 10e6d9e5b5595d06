//! The operand stack and the local variable slots of a method frame, each
//! holding variables.
use vstd::prelude::*;
use std::collections::BTreeMap;
use crate::compiler::types::{SpecType, is_wide};
use crate::compiler::translate::{VarId, VarIdGen};

verus! {

broadcast use vstd::std_specs::btree::group_btree_axioms;

use vstd::std_specs::btree::increasing_seq;
use vstd::std_specs::iter::IteratorSpec;
use vstd::std_specs::cmp::OrdSpec;

/// The views of a sequence of variables.
pub open spec fn var_views(vs: Seq<VarId>) -> Seq<(SpecType, u64)> {
    vs.map_values(|v: VarId| v@)
}

/// The first local slot of the argument at `i`: each argument takes one
/// slot, and `long` and `double` arguments take two.
pub open spec fn slot_of(args: Seq<(SpecType, u64)>, i: int) -> int
    decreases i,
{
    if i <= 0 {
        0
    } else {
        slot_of(args, i - 1) + if is_wide(args[i - 1].0) { 2int } else { 1int }
    }
}

/// Slots of later arguments are higher, and no slot is past twice the count.
pub proof fn lemma_slot_of_increasing(args: Seq<(SpecType, u64)>, j: int, i: int)
    requires
        0 <= j <= i,
    ensures
        j < i ==> slot_of(args, j) < slot_of(args, i),
        slot_of(args, i) <= 2 * i,
        i <= slot_of(args, i),
    decreases i,
{
    if i > 0 {
        lemma_slot_of_increasing(args, if j == i { j - 1 } else { j }, i - 1);
    }
}

/// Keys that a map hands out in increasing order are strictly increasing.
proof fn lemma_increasing_keys(keys: Seq<usize>)
    requires
        increasing_seq(keys),
    ensures
        forall|a: int, b: int| 0 <= a < b < keys.len() ==> #[trigger] keys[a] < #[trigger] keys[b],
{
    assert forall|a: int, b: int| 0 <= a < b < keys.len() implies #[trigger] keys[a] < #[trigger] keys[b] by {
        assert(keys[a].cmp_spec(&keys[b]) is Less);
    }
}

/// The operand stack (top last) and the local slots of a frame.
#[derive(Clone, Debug)]
pub struct StackAndLocals {
    pub stack: Vec<VarId>,
    pub locals: BTreeMap<usize, VarId>,
}

impl StackAndLocals {
    /// The variables on the stack, bottom first.
    pub open spec fn stack_view(&self) -> Seq<(SpecType, u64)> {
        var_views(self.stack@)
    }

    /// The variable held in each occupied local slot.
    pub open spec fn locals_view(&self) -> Map<usize, (SpecType, u64)> {
        self.locals@.map_values(|v: VarId| v@)
    }

    /// The frame at method entry: an empty stack, and the arguments in the
    /// first local slots, `long` and `double` taking two slots each.
    pub fn new(max_stack: u16, _max_locals: u16, args: &[VarId]) -> (r: StackAndLocals)
        requires
            args@.len() <= usize::MAX / 2,
        ensures
            r.stack_view() == Seq::<(SpecType, u64)>::empty(),
            forall|k: usize| #[trigger] r.locals_view().contains_key(k) <==> exists|i: int|
                0 <= i < args@.len() && #[trigger] slot_of(var_views(args@), i) == k,
            forall|i: int| 0 <= i < args@.len() ==>
                r.locals_view()[slot_of(var_views(args@), i) as usize] == #[trigger] args@[i]@,
    {
        let ghost av = var_views(args@);
        let stack: Vec<VarId> = Vec::with_capacity(max_stack as usize);
        let mut locals: BTreeMap<usize, VarId> = BTreeMap::new();
        let mut next_local_idx: usize = 0;
        let mut i: usize = 0;
        while i < args.len()
            invariant
                av == var_views(args@),
                args@.len() <= usize::MAX / 2,
                i <= args@.len(),
                next_local_idx == slot_of(av, i as int),
                forall|k: usize| #[trigger] locals@.contains_key(k) ==> k < next_local_idx
                    && exists|j: int| 0 <= j < i && #[trigger] slot_of(av, j) == k,
                forall|j: int| 0 <= j < i ==> #[trigger] locals@.contains_key(slot_of(av, j) as usize)
                    && locals@[slot_of(av, j) as usize]@ == av[j],
            decreases args@.len() - i,
        {
            let arg = &args[i];
            proof {
                lemma_slot_of_increasing(av, i as int, i as int + 1);
            }
            let ghost before = locals@;
            let ghost old_next = next_local_idx;
            locals.insert(next_local_idx, arg.duplicate());
            if arg.0.is_wide() {
                next_local_idx += 2;
            } else {
                next_local_idx += 1;
            }
            proof {
                assert(av[i as int] == arg@);
                assert forall|k: usize| #[trigger] locals@.contains_key(k) implies k < next_local_idx
                    && exists|j: int| 0 <= j < i + 1 && #[trigger] slot_of(av, j) == k by {
                    if k == old_next {
                        assert(slot_of(av, i as int) == k);
                    } else {
                        assert(before.contains_key(k));
                    }
                }
                assert forall|j: int| 0 <= j < i + 1 implies #[trigger] locals@.contains_key(slot_of(av, j) as usize)
                    && locals@[slot_of(av, j) as usize]@ == av[j] by {
                    if j < i {
                        lemma_slot_of_increasing(av, j, i as int);
                        lemma_slot_of_increasing(av, 0, j);
                        assert(before.contains_key(slot_of(av, j) as usize));
                    }
                }
            }
            i += 1;
        }
        let r = StackAndLocals { stack, locals };
        proof {
            assert(r.stack_view() =~= Seq::<(SpecType, u64)>::empty());
            assert forall|k: usize| #[trigger] r.locals_view().contains_key(k) <==> exists|i: int|
                0 <= i < args@.len() && #[trigger] slot_of(av, i) == k by {
                if exists|i: int| 0 <= i < args@.len() && #[trigger] slot_of(av, i) == k {
                    let i = choose|i: int| 0 <= i < args@.len() && #[trigger] slot_of(av, i) == k;
                    assert(locals@.contains_key(slot_of(av, i) as usize));
                }
            }
            assert forall|i: int| 0 <= i < args@.len() implies
                r.locals_view()[slot_of(av, i) as usize] == #[trigger] args@[i]@ by {
                assert(av[i] == args@[i]@);
                assert(locals@.contains_key(slot_of(av, i) as usize));
                assert(r.locals_view()[slot_of(av, i) as usize] == locals@[slot_of(av, i) as usize]@);
            }
        }
        r
    }

    /// A frame with the same shape: every stack entry and every occupied
    /// local slot gets a new variable of the same type, numbered in order,
    /// the stack first (bottom up), then the locals by slot.
    pub fn new_with_same_shape(&self, var_id_gen: &mut VarIdGen) -> (r: Self)
        requires
            old(var_id_gen)@ + self.stack@.len() + self.locals@.dom().len() <= u64::MAX,
        ensures
            final(var_id_gen)@ == old(var_id_gen)@ + self.stack@.len() + self.locals@.dom().len(),
            r.stack@.len() == self.stack@.len(),
            forall|i: int| 0 <= i < self.stack@.len() ==> #[trigger] r.stack_view()[i]
                == (self.stack_view()[i].0, (old(var_id_gen)@ + i) as u64),
            r.locals@.dom() == self.locals@.dom(),
            forall|k: usize| #[trigger] self.locals@.contains_key(k) ==> {
                &&& r.locals_view()[k].0 == self.locals_view()[k].0
                &&& old(var_id_gen)@ + self.stack@.len() <= r.locals_view()[k].1 < final(var_id_gen)@
            },
            forall|k1: usize, k2: usize|
                #![trigger r.locals_view()[k1], r.locals_view()[k2]]
                self.locals@.contains_key(k1) && self.locals@.contains_key(k2) && k1 < k2
                    ==> r.locals_view()[k1].1 < r.locals_view()[k2].1,
    {
        let ghost g0 = var_id_gen@;
        let mut stack: Vec<VarId> = Vec::new();
        let mut i: usize = 0;
        while i < self.stack.len()
            invariant
                i <= self.stack@.len(),
                stack@.len() == i,
                var_id_gen@ == g0 + i,
                g0 + self.stack@.len() + self.locals@.dom().len() <= u64::MAX,
                forall|j: int| 0 <= j < i ==> #[trigger] stack@[j]@ == (self.stack@[j].0@, (g0 + j) as u64),
            decreases self.stack@.len() - i,
        {
            let v = var_id_gen.gen(self.stack[i].0.duplicate());
            stack.push(v);
            i += 1;
        }
        let ghost g1 = var_id_gen@;
        let ghost m = self.locals@;
        let mut locals: BTreeMap<usize, VarId> = BTreeMap::new();
        let it0 = self.locals.iter();
        let ghost keys = it0.remaining().map_values(|kv: (&usize, &VarId)| *kv.0);
        assert(increasing_seq(keys));
        assert(it0.remaining().len() == m.dom().len());
        proof {
            lemma_increasing_keys(keys);
        }
        assert forall|j: int| 0 <= j < keys.len() implies m.contains_key(#[trigger] keys[j])
            && m[keys[j]] == *it0.remaining()[j].1 by {
            assert(keys[j] == *it0.remaining()[j].0);
            assert(m.contains_key(*it0.remaining()[j].0));
        }
        for (k, v) in it: it0
            invariant
                var_id_gen@ == g1 + it.index(),
                g1 + m.dom().len() <= u64::MAX,
                it.seq() == it0.remaining(),
                keys == it0.remaining().map_values(|kv: (&usize, &VarId)| *kv.0),
                it.seq().len() == m.dom().len(),
                keys.len() == it0.remaining().len(),
                forall|a: int, b: int| 0 <= a < b < keys.len() ==> #[trigger] keys[a] < #[trigger] keys[b],
                forall|j: int| 0 <= j < keys.len() ==> m.contains_key(#[trigger] keys[j])
                    && m[keys[j]] == *it0.remaining()[j].1,
                0 <= it.index() <= keys.len(),
                forall|j: int| 0 <= j < it.index() ==> #[trigger] locals@.contains_key(keys[j])
                    && locals@[keys[j]]@ == (m[keys[j]].0@, (g1 + j) as u64),
                forall|key: usize| #[trigger] locals@.contains_key(key) ==> exists|j: int| 0 <= j < it.index() && keys[j] == key,
            ensures
                var_id_gen@ == g1 + keys.len(),
                forall|j: int| 0 <= j < keys.len() ==> #[trigger] locals@.contains_key(keys[j])
                    && locals@[keys[j]]@ == (m[keys[j]].0@, (g1 + j) as u64),
                forall|key: usize| #[trigger] locals@.contains_key(key) ==> exists|j: int| 0 <= j < keys.len() && keys[j] == key,
        {
            let ghost j = it.index();
            assert(keys[j] == *k);
            let nv = var_id_gen.gen(v.0.duplicate());
            let ghost before = locals@;
            locals.insert(*k, nv);
            proof {
                assert forall|jj: int| 0 <= jj < j + 1 implies #[trigger] locals@.contains_key(keys[jj])
                    && locals@[keys[jj]]@ == (m[keys[jj]].0@, (g1 + jj) as u64) by {
                    if jj < j {
                        assert(keys[jj] < keys[j]);
                        assert(before.contains_key(keys[jj]));
                    }
                }
                assert forall|key: usize| #[trigger] locals@.contains_key(key) implies exists|jj: int| 0 <= jj < j + 1 && keys[jj] == key by {
                    if key != *k {
                        assert(before.contains_key(key));
                    }
                }
            }
        }
        let r = StackAndLocals { stack, locals };
        proof {
            assert forall|i: int| 0 <= i < self.stack@.len() implies #[trigger] r.stack_view()[i]
                == (self.stack_view()[i].0, (g0 + i) as u64) by {
                assert(stack@[i]@ == (self.stack@[i].0@, (g0 + i) as u64));
            }
            assert forall|key: usize| #[trigger] m.contains_key(key) implies r.locals@.contains_key(key) by {
                assert(it0.remaining().contains((&key, &m[key])));
                let j = choose|j: int| 0 <= j < it0.remaining().len() && it0.remaining()[j] == (&key, &m[key]);
                assert(keys[j] == key);
            }
            assert(r.locals@.dom() =~= m.dom());
            assert forall|key: usize| #[trigger] m.contains_key(key) implies {
                &&& r.locals_view()[key].0 == self.locals_view()[key].0
                &&& g0 + self.stack@.len() <= r.locals_view()[key].1 < var_id_gen@
            } by {
                let j = choose|j: int| 0 <= j < keys.len() && keys[j] == key;
                assert(locals@.contains_key(keys[j]));
            }
            assert forall|k1: usize, k2: usize|
                #![trigger r.locals_view()[k1], r.locals_view()[k2]]
                m.contains_key(k1) && m.contains_key(k2) && k1 < k2
                    implies r.locals_view()[k1].1 < r.locals_view()[k2].1 by {
                let j1 = choose|j: int| 0 <= j < keys.len() && keys[j] == k1;
                let j2 = choose|j: int| 0 <= j < keys.len() && keys[j] == k2;
                assert(locals@.contains_key(keys[j1]));
                assert(locals@.contains_key(keys[j2]));
                if j2 < j1 {
                    assert(keys[j2] < keys[j1]);
                }
                assert(j1 != j2);
            }
        }
        r
    }

    /// A copy of this frame.
    pub fn duplicate(&self) -> (r: Self)
        ensures
            r.stack_view() == self.stack_view(),
            r.locals@ == self.locals@,
    {
        let ghost want = self.stack_view();
        let mut stack: Vec<VarId> = Vec::new();
        let mut i: usize = 0;
        while i < self.stack.len()
            invariant
                i <= self.stack@.len(),
                want == self.stack_view(),
                var_views(stack@) =~= want.take(i as int),
            decreases self.stack@.len() - i,
        {
            let v = self.stack[i].duplicate();
            let ghost before = var_views(stack@);
            stack.push(v);
            assert(var_views(stack@) =~= before.push(v@));
            i += 1;
            assert(want.take(i as int) =~= want.take(i - 1).push(want[i - 1]));
        }
        assert(want.take(i as int) =~= want);
        StackAndLocals { stack, locals: self.locals.clone() }
    }

    /// Takes the top of the stack; the stack must not be empty.
    pub fn pop(&mut self) -> (r: VarId)
        requires
            old(self).stack@.len() > 0,
        ensures
            r@ == old(self).stack_view().last(),
            final(self).stack_view() == old(self).stack_view().drop_last(),
            final(self).locals@ == old(self).locals@,
    {
        let r = self.stack.pop().unwrap();
        assert(self.stack_view() =~= old(self).stack_view().drop_last());
        r
    }

    /// Takes the top `n` values, bottom first; the stack must hold `n`.
    pub fn pop_n(&mut self, n: usize) -> (r: Vec<VarId>)
        requires
            n <= old(self).stack@.len(),
        ensures
            r@.map_values(|v: VarId| v@) == old(self).stack_view().subrange(
                old(self).stack@.len() - n,
                old(self).stack@.len() as int,
            ),
            final(self).stack_view() == old(self).stack_view().subrange(0, old(self).stack@.len() - n),
            final(self).locals@ == old(self).locals@,
    {
        let index = self.stack.len() - n;
        let r = self.stack.split_off(index);
        assert(r@.map_values(|v: VarId| v@) =~= old(self).stack_view().subrange(
            old(self).stack@.len() - n,
            old(self).stack@.len() as int,
        ));
        assert(self.stack_view() =~= old(self).stack_view().subrange(0, old(self).stack@.len() - n));
        r
    }

    pub fn push(&mut self, var: VarId)
        ensures
            final(self).stack_view() == old(self).stack_view().push(var@),
            final(self).locals@ == old(self).locals@,
    {
        self.stack.push(var);
        assert(self.stack_view() =~= old(self).stack_view().push(var@));
    }

    /// Pushes the variable held in local slot `idx`; the slot must be
    /// occupied.
    pub fn load(&mut self, idx: usize)
        requires
            old(self).locals@.contains_key(idx),
        ensures
            final(self).stack_view() == old(self).stack_view().push(old(self).locals_view()[idx]),
            final(self).locals@ == old(self).locals@,
    {
        match self.locals.get(&idx) {
            Some(var) => {
                let v = var.duplicate();
                self.stack.push(v);
                assert(self.stack_view() =~= old(self).stack_view().push(old(self).locals_view()[idx]));
            },
            None => {
                assert(false);
            },
        }
    }

    /// Moves the top of the stack into local slot `idx`; the stack must not
    /// be empty.
    pub fn store(&mut self, idx: usize)
        requires
            old(self).stack@.len() > 0,
        ensures
            final(self).stack_view() == old(self).stack_view().drop_last(),
            final(self).locals_view() == old(self).locals_view().insert(idx, old(self).stack_view().last()),
    {
        let v = self.stack.pop().unwrap();
        self.locals.insert(idx, v);
        assert(self.stack_view() =~= old(self).stack_view().drop_last());
        assert(self.locals_view() =~= old(self).locals_view().insert(idx, old(self).stack_view().last()));
    }
}

/// Storing the top of the stack into a slot and then loading that slot
/// gives back the stack as it was, and the slot holds the stored variable.
pub proof fn law_store_then_load(
    stack: Seq<(SpecType, u64)>,
    locals: Map<usize, (SpecType, u64)>,
    idx: usize,
)
    requires
        stack.len() > 0,
    ensures
        ({
            let stored = locals.insert(idx, stack.last());
            &&& stored.contains_key(idx)
            &&& stored[idx] == stack.last()
            &&& stack.drop_last().push(stored[idx]) == stack
        }),
{
    assert(stack.drop_last().push(stack.last()) =~= stack);
}

/// Pushing a variable and then popping gives back that variable and the
/// stack as it was.
pub proof fn law_push_then_pop(stack: Seq<(SpecType, u64)>, v: (SpecType, u64))
    ensures
        stack.push(v).last() == v,
        stack.push(v).drop_last() == stack,
{
    assert(stack.push(v).drop_last() =~= stack);
}

} // verus!
