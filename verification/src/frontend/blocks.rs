//! The phi bindings of a block: for each variable that a block starts with,
//! the operands that reach it from the blocks before it.
use vstd::prelude::*;
use std::collections::BTreeMap;
use crate::frontend::types::Type;
use crate::frontend::translate::{BlockId, Op, VarId, spec_op_type};
use vstd::std_specs::iter::IteratorSpec;
use vstd::std_specs::cmp::OrdSpec;

verus! {

broadcast use vstd::std_specs::btree::group_btree_axioms;

/// Where a phi operand comes from: the method entry or a block.
#[derive(Clone, Copy, Debug, PartialEq, Eq, Structural)]
pub enum PhiOperandSource {
    Entry,
    Block(BlockId),
}

/// An operand of a phi node and the block it comes from.
#[derive(Clone, Copy, Debug, PartialEq, Eq, Structural)]
pub struct PhiOperand {
    pub op: Op,
    pub src: PhiOperandSource,
}

/// The position of a type in the order of its variants.
pub open spec fn type_ordinal(t: Type) -> u8 {
    match t {
        Type::Boolean => 0,
        Type::Char => 1,
        Type::Byte => 2,
        Type::Short => 3,
        Type::Int => 4,
        Type::Long => 5,
        Type::Float => 6,
        Type::Double => 7,
        Type::Reference => 8,
    }
}

/// The type at a position in the order of variants.
pub open spec fn type_of_ordinal(n: u8) -> Type {
    if n == 0 {
        Type::Boolean
    } else if n == 1 {
        Type::Char
    } else if n == 2 {
        Type::Byte
    } else if n == 3 {
        Type::Short
    } else if n == 4 {
        Type::Int
    } else if n == 5 {
        Type::Long
    } else if n == 6 {
        Type::Float
    } else if n == 7 {
        Type::Double
    } else {
        Type::Reference
    }
}

/// The key under which a variable's bindings are kept: variables are
/// ordered by type, then by number.
pub open spec fn var_key(v: VarId) -> (u8, u64) {
    (type_ordinal(v.0), v.1)
}

fn var_key_exec(v: VarId) -> (r: (u8, u64))
    ensures
        r == var_key(v),
{
    let n: u8 = match v.0 {
        Type::Boolean => 0,
        Type::Char => 1,
        Type::Byte => 2,
        Type::Short => 3,
        Type::Int => 4,
        Type::Long => 5,
        Type::Float => 6,
        Type::Double => 7,
        Type::Reference => 8,
    };
    (n, v.1)
}

fn var_of_key(k: (u8, u64)) -> (r: VarId)
    ensures
        r == VarId(type_of_ordinal(k.0), k.1),
{
    let t = if k.0 == 0 {
        Type::Boolean
    } else if k.0 == 1 {
        Type::Char
    } else if k.0 == 2 {
        Type::Byte
    } else if k.0 == 3 {
        Type::Short
    } else if k.0 == 4 {
        Type::Int
    } else if k.0 == 5 {
        Type::Long
    } else if k.0 == 6 {
        Type::Float
    } else if k.0 == 7 {
        Type::Double
    } else {
        Type::Reference
    };
    VarId(t, k.1)
}

/// Whether key `a` comes before key `b`: by type, then by number.
pub open spec fn key_before(a: (u8, u64), b: (u8, u64)) -> bool {
    a.0 < b.0 || (a.0 == b.0 && a.1 < b.1)
}

/// The keys of a map's entries, as its iterator walks them, come in
/// increasing order.
proof fn lemma_keys_ascending(keys: Seq<(u8, u64)>)
    requires
        vstd::std_specs::btree::increasing_seq(keys),
    ensures
        forall|a: int, b: int| 0 <= a < b < keys.len() ==> #[trigger] key_before(keys[a], keys[b]),
{
    broadcast use vstd::laws_cmp::group_laws_cmp;
    assert(vstd::laws_cmp::obeys_cmp::<(u8, u64)>());
    assert forall|a: int, b: int| 0 <= a < b < keys.len() implies #[trigger] key_before(keys[a], keys[b]) by {
        assert(keys[a].cmp_spec(&keys[b]) is Less);
    }
}

/// The bindings of each variable: its operands, or `None` once operands
/// of a different type have met in it.
pub struct PhiMap {
    inner: BTreeMap<(u8, u64), Option<Vec<PhiOperand>>>,
}

pub open spec fn binding_view(b: Option<Vec<PhiOperand>>) -> Option<Seq<PhiOperand>> {
    match b {
        Some(v) => Some(v@),
        None => None,
    }
}

impl PhiMap {
    /// Every key names a type.
    pub closed spec fn wf(&self) -> bool {
        forall|k: (u8, u64)| #[trigger] self.inner@.contains_key(k) ==> k.0 <= 8
    }
}

impl View for PhiMap {
    type V = Map<(u8, u64), Option<Seq<PhiOperand>>>;

    /// The bindings, by the key of the variable.
    closed spec fn view(&self) -> Map<(u8, u64), Option<Seq<PhiOperand>>> {
        self.inner@.map_values(|b: Option<Vec<PhiOperand>>| binding_view(b))
    }
}

/// The bindings after `operand` is offered to `target`: a variable whose
/// type differs from the operand's becomes unusable, a new variable starts
/// with the operand, and a usable one gets it appended; constants take none.
pub open spec fn spec_phi_add(
    m: Map<(u8, u64), Option<Seq<PhiOperand>>>,
    target: Op,
    operand: PhiOperand,
) -> Map<(u8, u64), Option<Seq<PhiOperand>>> {
    match target {
        Op::Var(tv) => {
            let k = var_key(tv);
            if tv.0 != spec_op_type(operand.op) {
                m.insert(k, None)
            } else if !m.contains_key(k) {
                m.insert(k, Some(seq![operand]))
            } else {
                match m[k] {
                    Some(ops) => m.insert(k, Some(ops.push(operand))),
                    None => m,
                }
            }
        },
        Op::Const(_) => m,
    }
}

impl PhiMap {
    pub fn new() -> (r: Self)
        ensures
            r.wf(),
            r@ == Map::<(u8, u64), Option<Seq<PhiOperand>>>::empty(),
    {
        let r = Self { inner: BTreeMap::new() };
        assert(r@ =~= Map::<(u8, u64), Option<Seq<PhiOperand>>>::empty());
        r
    }

    /// Offers `operand` to the variable `target`.
    pub fn add(&mut self, target: &Op, operand: PhiOperand)
        requires
            old(self).wf(),
        ensures
            final(self).wf(),
            final(self)@ == spec_phi_add(old(self)@, *target, operand),
    {
        if let Op::Var(target_var) = target {
            let key = var_key_exec(*target_var);
            if !target_var.0.can_unify_naive(&operand.op.get_type()) {
                self.inner.insert(key, None);
                assert(self@ =~= spec_phi_add(old(self)@, *target, operand));
            } else {
                match self.inner.remove(&key) {
                    Some(Some(mut operands)) => {
                        operands.push(operand);
                        self.inner.insert(key, Some(operands));
                    },
                    Some(None) => {
                        self.inner.insert(key, None);
                    },
                    None => {
                        let mut operands: Vec<PhiOperand> = Vec::new();
                        operands.push(operand);
                        self.inner.insert(key, Some(operands));
                    },
                }
                assert(self@ =~= spec_phi_add(old(self)@, *target, operand));
            }
        }
    }

    /// The usable variables and their operands, by variable order.
    pub fn iter(&self) -> (r: Vec<(VarId, Vec<PhiOperand>)>)
        requires
            self.wf(),
        ensures
            forall|i: int| 0 <= i < r@.len() ==> {
                let k = var_key(#[trigger] r@[i].0);
                &&& self@.contains_key(k)
                &&& self@[k] == Some(r@[i].1@)
            },
            forall|k: (u8, u64)| #[trigger] self@.contains_key(k) && self@[k] is Some ==>
                exists|i: int| 0 <= i < r@.len() && var_key(#[trigger] r@[i].0) == k,
            forall|i: int, j: int| 0 <= i < j < r@.len() ==>
                key_before(var_key(#[trigger] r@[i].0), var_key(#[trigger] r@[j].0)),
    {
        let ghost m = self.inner@;
        let mut out: Vec<(VarId, Vec<PhiOperand>)> = Vec::new();
        let it0 = self.inner.iter();
        let ghost keys = it0.remaining().map_values(|kv: (&(u8, u64), &Option<Vec<PhiOperand>>)| *kv.0);
        let ghost mut idx: Seq<int> = Seq::empty();
        proof {
            lemma_keys_ascending(keys);
        }
        assert forall|j: int| 0 <= j < it0.remaining().len() implies m.contains_key(*(#[trigger] it0.remaining()[j]).0)
            && m[*it0.remaining()[j].0] == *it0.remaining()[j].1 by {
            assert(m.contains_key(*it0.remaining()[j].0));
        }
        for (k, b) in it: it0
            invariant
                it.seq() == it0.remaining(),
                forall|j: int| 0 <= j < it0.remaining().len() ==> m.contains_key(*(#[trigger] it0.remaining()[j]).0)
                    && m[*it0.remaining()[j].0] == *it0.remaining()[j].1,
                forall|key: (u8, u64)| #[trigger] m.contains_key(key) ==> key.0 <= 8,
                forall|i: int| 0 <= i < out@.len() ==> {
                    let k = var_key(#[trigger] out@[i].0);
                    &&& m.contains_key(k)
                    &&& binding_view(m[k]) == Some(out@[i].1@)
                },
                forall|j: int| 0 <= j < it.index() && (#[trigger] it0.remaining()[j]).1 is Some ==>
                    exists|i: int| 0 <= i < out@.len() && var_key(#[trigger] out@[i].0) == *it0.remaining()[j].0,
                keys == it0.remaining().map_values(|kv: (&(u8, u64), &Option<Vec<PhiOperand>>)| *kv.0),
                forall|a: int, b: int| 0 <= a < b < keys.len() ==> #[trigger] key_before(keys[a], keys[b]),
                idx.len() == out@.len(),
                forall|i: int| 0 <= i < out@.len() ==> 0 <= #[trigger] idx[i] < it.index()
                    && var_key(out@[i].0) == keys[idx[i]],
                forall|i: int, i2: int| 0 <= i < i2 < out@.len() ==> #[trigger] idx[i] < #[trigger] idx[i2],
        {
            let ghost j = it.index();
            let ghost before = out@;
            if let Some(operands) = b {
                let v = var_of_key(*k);
                assert(var_key(v) == *k) by {
                    assert(k.0 == type_ordinal(type_of_ordinal(k.0)) || k.0 > 8);
                }
                let mut copy: Vec<PhiOperand> = Vec::new();
                let mut i: usize = 0;
                while i < operands.len()
                    invariant
                        i <= operands@.len(),
                        copy@ == operands@.take(i as int),
                    decreases operands@.len() - i,
                {
                    copy.push(operands[i]);
                    i += 1;
                    assert(copy@ =~= operands@.take(i as int));
                }
                assert(copy@ =~= operands@);
                out.push((v, copy));
                assert(out@[before.len() as int].0 == v);
                proof {
                    assert(keys[j] == *k);
                    idx = idx.push(j);
                }
            }
            proof {
                assert forall|jj: int| 0 <= jj < j + 1 && (#[trigger] it0.remaining()[jj]).1 is Some implies
                    exists|i: int| 0 <= i < out@.len() && var_key(#[trigger] out@[i].0) == *it0.remaining()[jj].0 by {
                    if jj < j {
                        let i = choose|i: int| 0 <= i < before.len() && var_key(#[trigger] before[i].0) == *it0.remaining()[jj].0;
                        assert(out@[i] == before[i]);
                    } else {
                        assert(var_key(out@[before.len() as int].0) == *it0.remaining()[jj].0);
                    }
                }
            }
        }
        proof {
            assert forall|i: int, j: int| 0 <= i < j < out@.len() implies
                key_before(var_key(#[trigger] out@[i].0), var_key(#[trigger] out@[j].0)) by {
                assert(idx[i] < idx[j]);
                assert(key_before(keys[idx[i]], keys[idx[j]]));
            }
            assert forall|key: (u8, u64)| #[trigger] self@.contains_key(key) && self@[key] is Some implies
                exists|i: int| 0 <= i < out@.len() && var_key(#[trigger] out@[i].0) == key by {
                assert(m.contains_key(key));
                assert(it0.remaining().contains((&key, &m[key])));
                let j = choose|j: int| 0 <= j < it0.remaining().len() && it0.remaining()[j] == (&key, &m[key]);
                assert(it0.remaining()[j].1 is Some);
            }
        }
        out
    }
}

/// Whether `target` is the variable with key `k`.
pub open spec fn targets_key(target: Op, k: (u8, u64)) -> bool {
    target matches Op::Var(v) && var_key(v) == k
}

/// The bindings after the additions `adds`, one after the other, starting
/// from no bindings.
pub open spec fn phi_after_adds(adds: Seq<(Op, PhiOperand)>) -> Map<(u8, u64), Option<Seq<PhiOperand>>>
    decreases adds.len(),
{
    if adds.len() == 0 {
        Map::empty()
    } else {
        spec_phi_add(phi_after_adds(adds.drop_last()), adds.last().0, adds.last().1)
    }
}

/// The operands that `adds` offers to the variable with key `k`, in order.
pub open spec fn offered_to(adds: Seq<(Op, PhiOperand)>, k: (u8, u64)) -> Seq<PhiOperand>
    decreases adds.len(),
{
    if adds.len() == 0 {
        Seq::empty()
    } else if targets_key(adds.last().0, k) {
        offered_to(adds.drop_last(), k).push(adds.last().1)
    } else {
        offered_to(adds.drop_last(), k)
    }
}

/// Whether every operand that `adds` offers to the variable with key `k`
/// has that variable's type.
pub open spec fn offers_typed(adds: Seq<(Op, PhiOperand)>, k: (u8, u64)) -> bool {
    forall|j: int| 0 <= j < adds.len() && #[trigger] targets_key(adds[j].0, k)
        ==> adds[j].0->Var_0.0 == spec_op_type(adds[j].1.op)
}

/// After a run of additions from no bindings, a variable is bound exactly
/// when some operand was offered to it; it keeps all its operands in the
/// order they were offered when every one of them had its type, and is
/// unusable for good once one did not.
pub proof fn law_phi_bindings_after_adds(adds: Seq<(Op, PhiOperand)>, k: (u8, u64))
    ensures
        phi_after_adds(adds).contains_key(k) <==> offered_to(adds, k).len() > 0,
        offered_to(adds, k).len() > 0 <==> exists|j: int| 0 <= j < adds.len() && #[trigger] targets_key(adds[j].0, k),
        phi_after_adds(adds).contains_key(k) ==> phi_after_adds(adds)[k] == (if offers_typed(adds, k) {
            Some(offered_to(adds, k))
        } else {
            None
        }),
    decreases adds.len(),
{
    if adds.len() > 0 {
        let prev = adds.drop_last();
        law_phi_bindings_after_adds(prev, k);
        let (target, operand) = adds.last();
        let last = adds.len() - 1;
        assert(adds[last] == adds.last());
        assert forall|j: int| 0 <= j < prev.len() implies #[trigger] prev[j] == adds[j] by {}
        assert(offers_typed(adds, k) <==> (offers_typed(prev, k) && (targets_key(target, k)
            ==> target->Var_0.0 == spec_op_type(operand.op)))) by {
            if offers_typed(adds, k) {
                assert forall|j: int| 0 <= j < prev.len() && #[trigger] targets_key(prev[j].0, k)
                    implies prev[j].0->Var_0.0 == spec_op_type(prev[j].1.op) by {
                    assert(prev[j] == adds[j]);
                    assert(targets_key(adds[j].0, k));
                }
                if targets_key(target, k) {
                    assert(targets_key(adds[last].0, k));
                }
            }
            if offers_typed(prev, k) && (targets_key(target, k) ==> target->Var_0.0 == spec_op_type(operand.op)) {
                assert forall|j: int| 0 <= j < adds.len() && #[trigger] targets_key(adds[j].0, k)
                    implies adds[j].0->Var_0.0 == spec_op_type(adds[j].1.op) by {
                    if j < last {
                        assert(prev[j] == adds[j]);
                        assert(targets_key(prev[j].0, k));
                    }
                }
            }
        }
        if exists|j: int| 0 <= j < adds.len() && #[trigger] targets_key(adds[j].0, k) {
            let j = choose|j: int| 0 <= j < adds.len() && #[trigger] targets_key(adds[j].0, k);
            if j < last {
                assert(prev[j] == adds[j]);
                assert(targets_key(prev[j].0, k));
            }
        }
        if targets_key(target, k) {
            assert(targets_key(adds[last].0, k));
        } else {
            if exists|j: int| 0 <= j < prev.len() && #[trigger] targets_key(prev[j].0, k) {
                let j = choose|j: int| 0 <= j < prev.len() && #[trigger] targets_key(prev[j].0, k);
                assert(targets_key(adds[j].0, k));
            }
        }
        if targets_key(target, k) && !offers_typed(prev, k) && phi_after_adds(prev).contains_key(k) {
            assert(offered_to(prev, k).len() > 0);
        }
        if targets_key(target, k) && !phi_after_adds(prev).contains_key(k) {
            assert(offered_to(prev, k) =~= Seq::<PhiOperand>::empty());
            assert(!(exists|j: int| 0 <= j < prev.len() && #[trigger] targets_key(prev[j].0, k)));
            assert(offers_typed(prev, k));
            assert(seq![operand] =~= offered_to(prev, k).push(operand));
        }
    }
}

} // verus!
