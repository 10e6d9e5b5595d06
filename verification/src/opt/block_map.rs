//! The blocks of a method's code, found by following the branches from its
//! start.
use vstd::prelude::*;
use crate::classfile::instructions::{Disassembler, Instr};
use crate::opt::instr_block::{
    lemma_run_tail,
    InstructionBlock, BlockError, entries_view, chain_run, ends_block, next_starts, on_chain,
    well_formed_code, code_well_formed, successors_on_chain, spec_scan, scan_decodable, starts_increasing,
    lemma_run_increasing, lemma_chain_in_run, lemma_scan_on_chain, lemma_chain_le,
};
use vstd::set_lib::{set_int_range, lemma_int_range, lemma_len_subset};

verus! {

/// A block as its start, its end and its instructions.
pub open spec fn block_view(b: InstructionBlock) -> (int, int, Seq<(int, int, Instr)>) {
    (b.range.start as int, b.range.end as int, entries_view(b.instrs@))
}

/// The blocks, viewed.
pub open spec fn blocks_view(bs: Seq<InstructionBlock>) -> Seq<(int, int, Seq<(int, int, Instr)>)> {
    bs.map_values(|b: InstructionBlock| block_view(b))
}

/// Whether a block is a run of the chain that spans its range, and only its
/// last instruction may end a block.
pub open spec fn block_ok(s: Seq<u8>, b: (int, int, Seq<(int, int, Instr)>)) -> bool {
    &&& chain_run(s, b.2, b.0)
    &&& b.1 == b.2.last().1
    &&& forall|k: int| 0 <= k < b.2.len() - 1 ==> !ends_block(#[trigger] b.2[k].2)
}

/// Whether the last instruction of a block ends a block.
pub open spec fn ends_with_branch(b: (int, int, Seq<(int, int, Instr)>)) -> bool {
    ends_block(b.2.last().2)
}

/// The addresses at which blocks start after a block.
pub open spec fn block_successors(b: (int, int, Seq<(int, int, Instr)>)) -> Seq<u32> {
    next_starts(b.2.last().2, b.2.last().0, b.2.last().1)
}

/// Whether some block starts at `a`.
pub open spec fn starts_a_block(bv: Seq<(int, int, Seq<(int, int, Instr)>)>, a: int) -> bool {
    exists|b: (int, int, Seq<(int, int, Instr)>)| #[trigger] bv.contains(b) && b.0 == a
}

/// Whether some block that ends at a branch names `a` as a successor.
pub open spec fn demanded(bv: Seq<(int, int, Seq<(int, int, Instr)>)>, a: u32) -> bool {
    exists|b: (int, int, Seq<(int, int, Instr)>)| #[trigger] bv.contains(b) && ends_with_branch(b)
        && block_successors(b).contains(a)
}

/// The blocks that the map ends with: runs of the chain; one starts at 0;
/// each successor of a block that ends at a branch starts a block; a block
/// that does not end at a branch is followed by one; and every block
/// starts at 0 or at a successor.
pub open spec fn blocks_complete(s: Seq<u8>, bv: Seq<(int, int, Seq<(int, int, Instr)>)>) -> bool {
    &&& forall|b: (int, int, Seq<(int, int, Instr)>)| #[trigger] bv.contains(b) ==> block_ok(s, b)
    &&& starts_a_block(bv, 0)
    &&& forall|b: (int, int, Seq<(int, int, Instr)>), x: u32| #[trigger] bv.contains(b) && ends_with_branch(b)
        && #[trigger] block_successors(b).contains(x) ==> starts_a_block(bv, x as int)
    &&& forall|b: (int, int, Seq<(int, int, Instr)>)| #[trigger] bv.contains(b) && !ends_with_branch(b)
        ==> starts_a_block(bv, b.1)
    &&& forall|b: (int, int, Seq<(int, int, Instr)>)| #[trigger] bv.contains(b) ==> b.0 == 0 || demanded(bv, b.0 as u32)
}

/// Whether a scan that succeeds from `y` names `a` among the addresses at
/// which blocks start after it.
pub open spec fn scan_names(s: Seq<u8>, y: u32, a: u32) -> bool {
    spec_scan(s, y as int) is Ok && spec_scan(s, y as int)->Ok_0.1.contains(a)
}

/// Whether `path` is a way that building takes: it starts at 0, and each
/// next address is one that a successful scan from the one before names.
pub open spec fn reach_path(s: Seq<u8>, path: Seq<u32>) -> bool {
    &&& path.len() > 0
    &&& path[0] == 0
    &&& forall|i: int| 0 <= i < path.len() - 1 ==> #[trigger] scan_names(s, path[i], path[i + 1])
}

/// Whether building reaches `a`: from 0, by the successors that successful
/// scans name.
pub open spec fn reached(s: Seq<u8>, a: u32) -> bool {
    exists|path: Seq<u32>| #[trigger] reach_path(s, path) && path.last() == a
}

/// Every address still to visit is one that building reaches.
#[verifier::opaque]
pub open spec fn stack_reached(s: Seq<u8>, stack: Seq<u32>) -> bool {
    forall|x: u32| #[trigger] stack.contains(x) ==> reached(s, x)
}

/// The successors that a successful scan from a reached address names are
/// reached too.
proof fn lemma_reach_successors(s: Seq<u8>, y: u32, popped: Seq<u32>)
    requires
        reached(s, y),
        spec_scan(s, y as int) is Ok,
        stack_reached(s, popped),
    ensures
        stack_reached(s, popped + spec_scan(s, y as int)->Ok_0.1),
{
    reveal(stack_reached);
    let starts = spec_scan(s, y as int)->Ok_0.1;
    let path = choose|path: Seq<u32>| #[trigger] reach_path(s, path) && path.last() == y;
    assert forall|x: u32| #[trigger] (popped + starts).contains(x) implies reached(s, x) by {
        lemma_concat_contains(popped, starts);
        if starts.contains(x) {
            let next = path.push(x);
            assert(scan_names(s, y, x));
            assert forall|i: int| 0 <= i < next.len() - 1 implies #[trigger] scan_names(s, next[i], next[i + 1]) by {
                if i < path.len() - 1 {
                    assert(next[i] == path[i] && next[i + 1] == path[i + 1]);
                } else {
                    assert(next[i] == y && next[i + 1] == x);
                }
            }
            assert(reach_path(s, next));
        }
    }
}

/// Building starts from 0, which it reaches.
proof fn lemma_reach_start(s: Seq<u8>, stack: Seq<u32>)
    requires
        stack == seq![0u32],
    ensures
        stack_reached(s, stack),
{
    reveal(stack_reached);
    assert forall|x: u32| #[trigger] stack.contains(x) implies reached(s, x) by {
        assert(stack[0] == x);
        assert(reach_path(s, seq![0u32]));
    }
}

/// The address taken off the stack is reached, and so is the rest.
proof fn lemma_reach_pop(s: Seq<u8>, stack: Seq<u32>, a: u32)
    requires
        stack_reached(s, stack.push(a)),
    ensures
        reached(s, a),
        stack_reached(s, stack),
{
    reveal(stack_reached);
    lemma_push_contains(stack, a);
    assert(stack.push(a).contains(a));
    assert forall|x: u32| #[trigger] stack.contains(x) implies reached(s, x) by {
        assert(stack.push(a).contains(x));
    }
}

/// Facts that building keeps.
proof fn lemma_building_parts(
    s: Seq<u8>,
    bv: Seq<(int, int, Seq<(int, int, Instr)>)>,
    stack: Seq<u32>,
    built: Set<int>,
)
    requires
        building(s, bv, stack, built),
    ensures
        well_formed_code(s),
        successors_on_chain(s, stack),
        all_blocks_ok(s, bv),
        built_ok(s, bv, built),
        stack.len() == 0 ==> blocks_complete(s, bv),
{
    reveal(building);
    if stack.len() == 0 {
        reveal(all_blocks_ok);
        reveal(successors_covered);
        reveal(fallthrough_covered);
        reveal(starts_demanded);
        assert(!stack.contains(0u32));
        assert forall|b: (int, int, Seq<(int, int, Instr)>), x: u32| #[trigger] bv.contains(b) && ends_with_branch(b)
            && #[trigger] block_successors(b).contains(x) implies starts_a_block(bv, x as int) by {
            assert(!stack.contains(x));
        }
    }
}

/// Every block is a run of the chain.
#[verifier::opaque]
pub open spec fn all_blocks_ok(s: Seq<u8>, bv: Seq<(int, int, Seq<(int, int, Instr)>)>) -> bool {
    forall|b: (int, int, Seq<(int, int, Instr)>)| #[trigger] bv.contains(b) ==> block_ok(s, b)
}

/// Every address still to visit is 0 or a successor of a block.
#[verifier::opaque]
pub open spec fn stack_demanded(bv: Seq<(int, int, Seq<(int, int, Instr)>)>, stack: Seq<u32>) -> bool {
    forall|x: u32| #[trigger] stack.contains(x) ==> x == 0 || demanded(bv, x)
}

/// Every successor of a block starts a block or is still to visit.
#[verifier::opaque]
pub open spec fn successors_covered(bv: Seq<(int, int, Seq<(int, int, Instr)>)>, stack: Seq<u32>) -> bool {
    forall|b: (int, int, Seq<(int, int, Instr)>), x: u32| #[trigger] bv.contains(b) && ends_with_branch(b)
        && #[trigger] block_successors(b).contains(x) ==> starts_a_block(bv, x as int) || stack.contains(x)
}

/// A block that does not end at a branch is followed by a block.
#[verifier::opaque]
pub open spec fn fallthrough_covered(bv: Seq<(int, int, Seq<(int, int, Instr)>)>) -> bool {
    forall|b: (int, int, Seq<(int, int, Instr)>)| #[trigger] bv.contains(b) && !ends_with_branch(b)
        ==> starts_a_block(bv, b.1)
}

/// Every block starts at 0 or at a successor of a block.
#[verifier::opaque]
pub open spec fn starts_demanded(bv: Seq<(int, int, Seq<(int, int, Instr)>)>) -> bool {
    forall|b: (int, int, Seq<(int, int, Instr)>)| #[trigger] bv.contains(b) ==> b.0 == 0 || demanded(bv, b.0 as u32)
}

/// The addresses that blocks were decoded from lie in the code and each
/// still starts a block.
#[verifier::opaque]
pub open spec fn built_ok(s: Seq<u8>, bv: Seq<(int, int, Seq<(int, int, Instr)>)>, built: Set<int>) -> bool {
    &&& built.finite()
    &&& forall|x: int| #[trigger] built.contains(x) ==> 0 <= x < s.len() && starts_a_block(bv, x)
}

/// What holds while the map is built: the blocks so far, the addresses
/// still to visit, and the addresses that blocks were decoded from.
#[verifier::opaque]
pub open spec fn building(
    s: Seq<u8>,
    bv: Seq<(int, int, Seq<(int, int, Instr)>)>,
    stack: Seq<u32>,
    built: Set<int>,
) -> bool {
    &&& well_formed_code(s)
    &&& successors_on_chain(s, stack)
    &&& all_blocks_ok(s, bv)
    &&& starts_a_block(bv, 0) || stack.contains(0u32)
    &&& stack_demanded(bv, stack)
    &&& successors_covered(bv, stack)
    &&& fallthrough_covered(bv)
    &&& starts_demanded(bv)
    &&& built_ok(s, bv, built)
}

/// Whether `nbv` keeps every start and every successor of `bv`.
pub open spec fn keeps_starts_and_successors(
    bv: Seq<(int, int, Seq<(int, int, Instr)>)>,
    nbv: Seq<(int, int, Seq<(int, int, Instr)>)>,
) -> bool {
    &&& forall|v: int| starts_a_block(bv, v) ==> #[trigger] starts_a_block(nbv, v)
    &&& forall|v: u32| demanded(bv, v) ==> #[trigger] demanded(nbv, v)
}

/// What an inserted element adds to the elements of a sequence.
proof fn lemma_insert_contains<A>(s: Seq<A>, i: int, x: A)
    requires
        0 <= i <= s.len(),
    ensures
        forall|y: A| #[trigger] s.insert(i, x).contains(y) <==> s.contains(y) || y == x,
{
    let t = s.insert(i, x);
    assert forall|y: A| #[trigger] t.contains(y) <==> s.contains(y) || y == x by {
        if t.contains(y) {
            let j = choose|j: int| 0 <= j < t.len() && t[j] == y;
            if j < i {
                assert(s[j] == y);
            } else if j > i {
                assert(s[j - 1] == y);
            }
        }
        if s.contains(y) {
            let j = choose|j: int| 0 <= j < s.len() && s[j] == y;
            if j < i {
                assert(t[j] == y);
            } else {
                assert(t[j + 1] == y);
            }
        }
        if y == x {
            assert(t[i] == y);
        }
    }
}

/// What replacing an element keeps and adds.
proof fn lemma_update_contains<A>(s: Seq<A>, i: int, x: A)
    requires
        0 <= i < s.len(),
    ensures
        forall|y: A| #[trigger] s.update(i, x).contains(y) ==> s.contains(y) || y == x,
        forall|y: A| s.contains(y) && y != s[i] ==> #[trigger] s.update(i, x).contains(y),
        s.update(i, x).contains(x),
{
    let t = s.update(i, x);
    assert forall|y: A| #[trigger] t.contains(y) implies s.contains(y) || y == x by {
        let j = choose|j: int| 0 <= j < t.len() && t[j] == y;
        if j != i {
            assert(s[j] == y);
        }
    }
    assert forall|y: A| s.contains(y) && y != s[i] implies #[trigger] t.contains(y) by {
        let j = choose|j: int| 0 <= j < s.len() && s[j] == y;
        assert(t[j] == y);
    }
    assert(t[i] == x);
}

/// A block's start lies inside it.
proof fn lemma_block_nonempty(s: Seq<u8>, b: (int, int, Seq<(int, int, Instr)>))
    requires
        block_ok(s, b),
    ensures
        b.0 < b.1,
{
    lemma_run_increasing(s, b.2, b.0);
    assert(b.2[0].1 <= b.2.last().1);
}

/// The elements of a sequence with one pushed.
proof fn lemma_push_contains<A>(s: Seq<A>, a: A)
    ensures
        forall|v: A| #[trigger] s.push(a).contains(v) <==> s.contains(v) || v == a,
{
    assert forall|v: A| #[trigger] s.push(a).contains(v) <==> s.contains(v) || v == a by {
        if s.push(a).contains(v) {
            let j = choose|j: int| 0 <= j < s.push(a).len() && s.push(a)[j] == v;
            if j < s.len() {
                assert(s[j] == v);
            }
        }
        if s.contains(v) {
            let j = choose|j: int| 0 <= j < s.len() && s[j] == v;
            assert(s.push(a)[j] == v);
        }
        if v == a {
            assert(s.push(a)[s.len() as int] == v);
        }
    }
}

/// The elements of two sequences one after the other.
proof fn lemma_concat_contains<A>(s: Seq<A>, t: Seq<A>)
    ensures
        forall|v: A| #[trigger] (s + t).contains(v) <==> s.contains(v) || t.contains(v),
{
    assert forall|v: A| #[trigger] (s + t).contains(v) <==> s.contains(v) || t.contains(v) by {
        if (s + t).contains(v) {
            let j = choose|j: int| 0 <= j < (s + t).len() && (s + t)[j] == v;
            if j < s.len() {
                assert(s[j] == v);
            } else {
                assert(t[j - s.len()] == v);
            }
        }
        if s.contains(v) {
            let j = choose|j: int| 0 <= j < s.len() && s[j] == v;
            assert((s + t)[j] == v);
        }
        if t.contains(v) {
            let j = choose|j: int| 0 <= j < t.len() && t[j] == v;
            assert((s + t)[s.len() + j] == v);
        }
    }
}

/// Visiting an address that already starts a block changes nothing else.
proof fn lemma_visit_start(
    s: Seq<u8>,
    bv: Seq<(int, int, Seq<(int, int, Instr)>)>,
    stack: Seq<u32>,
    built: Set<int>,
    a: u32,
)
    requires
        building(s, bv, stack.push(a), built),
        starts_a_block(bv, a as int),
    ensures
        building(s, bv, stack, built),
{
    reveal(building);
    let st = stack.push(a);
    lemma_push_contains(stack, a);
    assert forall|i: int| 0 <= i < stack.len() implies (#[trigger] stack[i]) >= s.len() || on_chain(s, stack[i] as int) by {
        assert(st[i] == stack[i]);
    }
    assert(stack_demanded(bv, stack)) by {
        reveal(stack_demanded);
        assert forall|x: u32| #[trigger] stack.contains(x) implies x == 0 || demanded(bv, x) by {
            assert(st.contains(x));
        }
    }
    assert(successors_covered(bv, stack)) by {
        reveal(successors_covered);
        assert forall|b: (int, int, Seq<(int, int, Instr)>), x: u32| #[trigger] bv.contains(b) && ends_with_branch(b)
            && #[trigger] block_successors(b).contains(x) implies starts_a_block(bv, x as int) || stack.contains(x) by {
            if !starts_a_block(bv, x as int) {
                assert(st.contains(x));
            }
        }
    }
    assert(starts_a_block(bv, 0) || stack.contains(0u32)) by {
        if !starts_a_block(bv, 0) {
            assert(st.contains(0u32));
        }
    }
}

/// The facts about a new block added at `idx`.
pub open spec fn added(
    bv: Seq<(int, int, Seq<(int, int, Instr)>)>,
    nbv: Seq<(int, int, Seq<(int, int, Instr)>)>,
    nb: (int, int, Seq<(int, int, Instr)>),
) -> bool {
    forall|y: (int, int, Seq<(int, int, Instr)>)| #[trigger] nbv.contains(y) <==> bv.contains(y) || y == nb
}

proof fn lemma_added_keeps(
    bv: Seq<(int, int, Seq<(int, int, Instr)>)>,
    nbv: Seq<(int, int, Seq<(int, int, Instr)>)>,
    nb: (int, int, Seq<(int, int, Instr)>),
)
    requires
        added(bv, nbv, nb),
    ensures
        keeps_starts_and_successors(bv, nbv),
{
    assert forall|v: int| starts_a_block(bv, v) implies #[trigger] starts_a_block(nbv, v) by {
        let b = choose|b: (int, int, Seq<(int, int, Instr)>)| #[trigger] bv.contains(b) && b.0 == v;
        assert(nbv.contains(b));
    }
    assert forall|v: u32| demanded(bv, v) implies #[trigger] demanded(nbv, v) by {
        let b = choose|b: (int, int, Seq<(int, int, Instr)>)| #[trigger] bv.contains(b) && ends_with_branch(b)
            && block_successors(b).contains(v);
        assert(nbv.contains(b));
    }
}

/// Adding a block decoded from an address that no block holds.
proof fn lemma_add_block(
    s: Seq<u8>,
    bv: Seq<(int, int, Seq<(int, int, Instr)>)>,
    stack: Seq<u32>,
    built: Set<int>,
    a: u32,
    nbv: Seq<(int, int, Seq<(int, int, Instr)>)>,
    nb: (int, int, Seq<(int, int, Instr)>),
)
    requires
        building(s, bv, stack.push(a), built),
        forall|b: (int, int, Seq<(int, int, Instr)>)| #[trigger] bv.contains(b) ==> !(b.0 <= a < b.1),
        added(bv, nbv, nb),
        block_ok(s, nb),
        nb.0 == a,
        ends_with_branch(nb),
        successors_on_chain(s, block_successors(nb)),
        a < s.len(),
    ensures
        !built.contains(a as int),
        building(s, nbv, stack + block_successors(nb), built.insert(a as int)),
{
    reveal(building);
    let st = stack.push(a);
    let succ = block_successors(nb);
    let nst = stack + succ;
    lemma_push_contains(stack, a);
    lemma_concat_contains(stack, succ);
    lemma_added_keeps(bv, nbv, nb);
    assert(nbv.contains(nb));
    assert(starts_a_block(nbv, a as int));
    assert(st.contains(a));
    assert(!built.contains(a as int)) by {
        reveal(built_ok);
        reveal(all_blocks_ok);
        if built.contains(a as int) {
            let b = choose|b: (int, int, Seq<(int, int, Instr)>)| #[trigger] bv.contains(b) && b.0 == a;
            lemma_block_nonempty(s, b);
        }
    }
    assert(successors_on_chain(s, nst)) by {
        assert forall|i: int| 0 <= i < nst.len() implies (#[trigger] nst[i]) >= s.len() || on_chain(s, nst[i] as int) by {
            if i < stack.len() {
                assert(st[i] == nst[i]);
            } else {
                assert(nst[i] == succ[i - stack.len()]);
            }
        }
    }
    assert(all_blocks_ok(s, nbv)) by {
        reveal(all_blocks_ok);
    }
    assert(stack_demanded(nbv, nst)) by {
        reveal(stack_demanded);
        assert forall|x: u32| #[trigger] nst.contains(x) implies x == 0 || demanded(nbv, x) by {
            if !succ.contains(x) {
                assert(st.contains(x));
            }
        }
    }
    assert(successors_covered(nbv, nst)) by {
        reveal(successors_covered);
        assert forall|b: (int, int, Seq<(int, int, Instr)>), x: u32| #[trigger] nbv.contains(b) && ends_with_branch(b)
            && #[trigger] block_successors(b).contains(x) implies starts_a_block(nbv, x as int) || nst.contains(x) by {
            if b != nb {
                assert(bv.contains(b));
                if !starts_a_block(bv, x as int) {
                    assert(st.contains(x));
                }
            }
        }
    }
    assert(fallthrough_covered(nbv)) by {
        reveal(fallthrough_covered);
        assert forall|b: (int, int, Seq<(int, int, Instr)>)| #[trigger] nbv.contains(b) && !ends_with_branch(b)
            implies starts_a_block(nbv, b.1) by {
            assert(bv.contains(b));
        }
    }
    assert(starts_demanded(nbv)) by {
        reveal(starts_demanded);
        reveal(stack_demanded);
        assert forall|b: (int, int, Seq<(int, int, Instr)>)| #[trigger] nbv.contains(b) implies b.0 == 0 || demanded(nbv, b.0 as u32) by {
            if b != nb {
                assert(bv.contains(b));
            }
        }
    }
    assert(built_ok(s, nbv, built.insert(a as int))) by {
        reveal(built_ok);
        assert forall|x: int| #[trigger] built.insert(a as int).contains(x) implies 0 <= x < s.len() && starts_a_block(nbv, x) by {
            if x != a {
                assert(built.contains(x));
            }
        }
    }
    assert(starts_a_block(nbv, 0) || nst.contains(0u32)) by {
        if !starts_a_block(bv, 0) && a != 0 {
            assert(st.contains(0u32));
        }
    }
}

/// The facts about a block `x` split into `h` and `t`.
pub open spec fn split_into(
    bv: Seq<(int, int, Seq<(int, int, Instr)>)>,
    nbv: Seq<(int, int, Seq<(int, int, Instr)>)>,
    x: (int, int, Seq<(int, int, Instr)>),
    h: (int, int, Seq<(int, int, Instr)>),
    t: (int, int, Seq<(int, int, Instr)>),
) -> bool {
    &&& bv.contains(x)
    &&& nbv.contains(h)
    &&& nbv.contains(t)
    &&& forall|y: (int, int, Seq<(int, int, Instr)>)| bv.contains(y) && y != x ==> #[trigger] nbv.contains(y)
    &&& forall|y: (int, int, Seq<(int, int, Instr)>)| #[trigger] nbv.contains(y) ==> bv.contains(y) || y == h || y == t
    &&& h.0 == x.0
    &&& h.1 == t.0
    &&& t.1 == x.1
    &&& !ends_with_branch(h)
    &&& ends_with_branch(t) == ends_with_branch(x)
    &&& block_successors(t) == block_successors(x)
}

proof fn lemma_split_keeps(
    bv: Seq<(int, int, Seq<(int, int, Instr)>)>,
    nbv: Seq<(int, int, Seq<(int, int, Instr)>)>,
    x: (int, int, Seq<(int, int, Instr)>),
    h: (int, int, Seq<(int, int, Instr)>),
    t: (int, int, Seq<(int, int, Instr)>),
)
    requires
        split_into(bv, nbv, x, h, t),
    ensures
        keeps_starts_and_successors(bv, nbv),
{
    assert forall|v: int| starts_a_block(bv, v) implies #[trigger] starts_a_block(nbv, v) by {
        let y = choose|y: (int, int, Seq<(int, int, Instr)>)| #[trigger] bv.contains(y) && y.0 == v;
        if y == x {
            assert(nbv.contains(h));
        } else {
            assert(nbv.contains(y));
        }
    }
    assert forall|v: u32| demanded(bv, v) implies #[trigger] demanded(nbv, v) by {
        let y = choose|y: (int, int, Seq<(int, int, Instr)>)| #[trigger] bv.contains(y) && ends_with_branch(y)
            && block_successors(y).contains(v);
        if y == x {
            assert(nbv.contains(t));
        } else {
            assert(nbv.contains(y));
        }
    }
}

proof fn lemma_split_covered(
    bv: Seq<(int, int, Seq<(int, int, Instr)>)>,
    stack: Seq<u32>,
    a: u32,
    nbv: Seq<(int, int, Seq<(int, int, Instr)>)>,
    x: (int, int, Seq<(int, int, Instr)>),
    h: (int, int, Seq<(int, int, Instr)>),
    t: (int, int, Seq<(int, int, Instr)>),
)
    requires
        successors_covered(bv, stack.push(a)),
        split_into(bv, nbv, x, h, t),
        keeps_starts_and_successors(bv, nbv),
        starts_a_block(nbv, a as int),
    ensures
        successors_covered(nbv, stack),
{
    lemma_push_contains(stack, a);
    reveal(successors_covered);
    assert forall|y: (int, int, Seq<(int, int, Instr)>), v: u32| #[trigger] nbv.contains(y) && ends_with_branch(y)
        && #[trigger] block_successors(y).contains(v) implies starts_a_block(nbv, v as int) || stack.contains(v) by {
        if y == t {
            assert(bv.contains(x) && ends_with_branch(x) && block_successors(x).contains(v));
            if !starts_a_block(bv, v as int) {
                assert(stack.push(a).contains(v));
            }
        } else {
            assert(y != h);
            assert(bv.contains(y));
            if !starts_a_block(bv, v as int) {
                assert(stack.push(a).contains(v));
            }
        }
    }
}

proof fn lemma_split_fallthrough(
    bv: Seq<(int, int, Seq<(int, int, Instr)>)>,
    nbv: Seq<(int, int, Seq<(int, int, Instr)>)>,
    x: (int, int, Seq<(int, int, Instr)>),
    h: (int, int, Seq<(int, int, Instr)>),
    t: (int, int, Seq<(int, int, Instr)>),
)
    requires
        fallthrough_covered(bv),
        split_into(bv, nbv, x, h, t),
        keeps_starts_and_successors(bv, nbv),
    ensures
        fallthrough_covered(nbv),
{
    reveal(fallthrough_covered);
    assert(starts_a_block(nbv, t.0)) by {
        assert(nbv.contains(t));
    }
    assert forall|y: (int, int, Seq<(int, int, Instr)>)| #[trigger] nbv.contains(y) && !ends_with_branch(y)
        implies starts_a_block(nbv, y.1) by {
        if y == t {
            assert(bv.contains(x) && !ends_with_branch(x));
        } else if y != h {
            assert(bv.contains(y));
        }
    }
}

proof fn lemma_split_starts(
    bv: Seq<(int, int, Seq<(int, int, Instr)>)>,
    stack: Seq<u32>,
    a: u32,
    nbv: Seq<(int, int, Seq<(int, int, Instr)>)>,
    x: (int, int, Seq<(int, int, Instr)>),
    h: (int, int, Seq<(int, int, Instr)>),
    t: (int, int, Seq<(int, int, Instr)>),
)
    requires
        starts_demanded(bv),
        stack_demanded(bv, stack.push(a)),
        split_into(bv, nbv, x, h, t),
        keeps_starts_and_successors(bv, nbv),
        t.0 == a,
    ensures
        starts_demanded(nbv),
        stack_demanded(nbv, stack),
{
    lemma_push_contains(stack, a);
    reveal(starts_demanded);
    reveal(stack_demanded);
    assert(stack.push(a).contains(a));
    assert forall|y: (int, int, Seq<(int, int, Instr)>)| #[trigger] nbv.contains(y) implies y.0 == 0 || demanded(nbv, y.0 as u32) by {
        if y == h {
            assert(bv.contains(x));
        } else if y != t {
            assert(bv.contains(y));
        }
    }
    assert forall|v: u32| #[trigger] stack.contains(v) implies v == 0 || demanded(nbv, v) by {
        assert(stack.push(a).contains(v));
    }
}

/// Splitting a block at an address that was still to visit.
proof fn lemma_split_block(
    s: Seq<u8>,
    bv: Seq<(int, int, Seq<(int, int, Instr)>)>,
    stack: Seq<u32>,
    built: Set<int>,
    a: u32,
    nbv: Seq<(int, int, Seq<(int, int, Instr)>)>,
    x: (int, int, Seq<(int, int, Instr)>),
    h: (int, int, Seq<(int, int, Instr)>),
    t: (int, int, Seq<(int, int, Instr)>),
)
    requires
        building(s, bv, stack.push(a), built),
        split_into(bv, nbv, x, h, t),
        t.0 == a,
        block_ok(s, h),
        block_ok(s, t),
    ensures
        building(s, nbv, stack, built),
{
    reveal(building);
    let st = stack.push(a);
    lemma_push_contains(stack, a);
    lemma_split_keeps(bv, nbv, x, h, t);
    assert(st.contains(a));
    assert(starts_a_block(nbv, a as int)) by {
        assert(nbv.contains(t));
    }
    assert(successors_on_chain(s, stack)) by {
        assert forall|i: int| 0 <= i < stack.len() implies (#[trigger] stack[i]) >= s.len() || on_chain(s, stack[i] as int) by {
            assert(st[i] == stack[i]);
        }
    }
    assert(all_blocks_ok(s, nbv)) by {
        reveal(all_blocks_ok);
    }
    lemma_split_covered(bv, stack, a, nbv, x, h, t);
    lemma_split_fallthrough(bv, nbv, x, h, t);
    lemma_split_starts(bv, stack, a, nbv, x, h, t);
    assert(built_ok(s, nbv, built)) by {
        reveal(built_ok);
    }
    assert(starts_a_block(nbv, 0) || stack.contains(0u32)) by {
        if !starts_a_block(bv, 0) {
            assert(st.contains(0u32));
        }
    }
}

/// The first half of a block split at an instruction is a block that does
/// not end at a branch.
proof fn lemma_head_half(s: Seq<u8>, x: (int, int, Seq<(int, int, Instr)>), a: int, k: int)
    requires
        block_ok(s, x),
        0 < k < x.2.len(),
        x.2[k].0 == a,
    ensures
        block_ok(s, (x.0, a, x.2.take(k))),
        !ends_with_branch((x.0, a, x.2.take(k))),
{
    let r = x.2.take(k);
    assert forall|j: int| 0 <= j < r.len() implies {
        &&& on_chain(s, #[trigger] r[j].0)
        &&& r[j].0 < r[j].1 <= s.len()
        &&& crate::classfile::instructions::spec_decode_at(s, r[j].0) == Ok::<(Instr, int), crate::classfile::error::ClassFileError>((r[j].2, r[j].1))
    } by {
        assert(r[j] == x.2[j]);
    }
    assert forall|j: int| 0 < j < r.len() implies r[j - 1].1 == #[trigger] r[j].0 by {
        assert(r[j] == x.2[j]);
        assert(r[j - 1] == x.2[j - 1]);
    }
    assert forall|j: int| 0 <= j < r.len() - 1 implies !ends_block(#[trigger] r[j].2) by {
        assert(r[j] == x.2[j]);
    }
    assert(r.last() == x.2[k - 1]);
    assert(x.2[k - 1].1 == x.2[k].0);
    assert(!ends_block(x.2[k - 1].2));
}

/// The second half of a block split at an instruction is a block that ends
/// as the block did.
#[verifier::rlimit(60)]
#[verifier::spinoff_prover]
proof fn lemma_tail_half(s: Seq<u8>, x: (int, int, Seq<(int, int, Instr)>), a: int, k: int)
    requires
        block_ok(s, x),
        0 < k < x.2.len(),
        x.2[k].0 == a,
    ensures
        block_ok(s, (a, x.1, x.2.skip(k))),
        ends_with_branch((a, x.1, x.2.skip(k))) == ends_with_branch(x),
        block_successors((a, x.1, x.2.skip(k))) == block_successors(x),
{
    let u = x.2.skip(k);
    assert forall|j: int| 0 <= j < u.len() implies {
        &&& on_chain(s, #[trigger] u[j].0)
        &&& u[j].0 < u[j].1 <= s.len()
        &&& crate::classfile::instructions::spec_decode_at(s, u[j].0) == Ok::<(Instr, int), crate::classfile::error::ClassFileError>((u[j].2, u[j].1))
    } by {
        assert(u[j] == x.2[j + k]);
    }
    assert forall|j: int| 0 < j < u.len() implies u[j - 1].1 == #[trigger] u[j].0 by {
        assert(u[j] == x.2[j + k]);
        assert(u[j - 1] == x.2[j - 1 + k]);
    }
    assert forall|j: int| 0 <= j < u.len() - 1 implies !ends_block(#[trigger] u[j].2) by {
        assert(u[j] == x.2[j + k]);
    }
    assert(u.last() == x.2.last());
}

/// Where an address still to visit lies inside a block, one of the block's
/// instructions starts there, and the block's starts increase.
proof fn lemma_split_point(s: Seq<u8>, b: InstructionBlock, a: u32)
    requires
        block_ok(s, block_view(b)),
        b.range.start < a < b.range.end,
        on_chain(s, a as int),
    ensures
        starts_increasing(b.instrs@),
        exists|k: int| 0 < k < b.instrs@.len() && #[trigger] b.instrs@[k].range.start == a,
{
    let x = block_view(b);
    lemma_run_increasing(s, x.2, x.0);
    lemma_chain_in_run(s, x.2, x.0, a as int);
    let k = choose|k: int| 0 <= k < x.2.len() && #[trigger] x.2[k].0 == a;
    assert(b.instrs@[k].range.start == a);
    assert forall|i: int, j: int| 0 <= i < j < b.instrs@.len() implies
        #[trigger] b.instrs@[i].range.start < #[trigger] b.instrs@[j].range.start by {
        assert(x.2[i].0 < x.2[j].0);
    }
}

/// After a block is split in place and its second half inserted after it,
/// the building facts still hold.
proof fn lemma_after_split(
    s: Seq<u8>,
    blocks: Seq<InstructionBlock>,
    nblocks: Seq<InstructionBlock>,
    index: int,
    a: u32,
    head: InstructionBlock,
    tail: InstructionBlock,
    k: int,
    pos: int,
    stack: Seq<u32>,
    built: Set<int>,
)
    requires
        building(s, blocks_view(blocks), stack.push(a), built),
        0 <= index < pos <= blocks.len(),
        0 < k < blocks[index].instrs@.len(),
        blocks[index].instrs@[k].range.start == a,
        head.instrs@ == blocks[index].instrs@.take(k),
        tail.instrs@ == blocks[index].instrs@.skip(k),
        head.range.start == blocks[index].range.start,
        head.range.end == a,
        tail.range.start == a,
        tail.range.end == blocks[index].range.end,
        nblocks == blocks.update(index, head).insert(pos, tail),
    ensures
        building(s, blocks_view(nblocks), stack, built),
{
    reveal(building);
    let bv = blocks_view(blocks);
    let x = bv[index];
    assert(x == block_view(blocks[index]));
    assert(bv.contains(x));
    assert(block_ok(s, x)) by {
        reveal(all_blocks_ok);
    }
    assert(x.2[k].0 == a);
    lemma_head_half(s, x, a as int, k);
    lemma_tail_half(s, x, a as int, k);
    let h = (x.0, a as int, x.2.take(k));
    let t = (a as int, x.1, x.2.skip(k));
    assert(block_view(head) == h) by {
        assert(entries_view(head.instrs@) =~= x.2.take(k));
    }
    assert(block_view(tail) == t) by {
        assert(entries_view(tail.instrs@) =~= x.2.skip(k));
    }
    let ubv = bv.update(index, h);
    let nbv = ubv.insert(pos, t);
    assert(blocks_view(nblocks) =~= nbv);
    lemma_update_contains(bv, index, h);
    lemma_insert_contains(ubv, pos, t);
    assert forall|y: (int, int, Seq<(int, int, Instr)>)| bv.contains(y) && y != x implies #[trigger] nbv.contains(y) by {
        assert(ubv.contains(y));
    }
    assert forall|y: (int, int, Seq<(int, int, Instr)>)| #[trigger] nbv.contains(y) implies bv.contains(y) || y == h || y == t by {
        if y != t {
            assert(ubv.contains(y));
        }
    }
    assert(ubv.contains(h));
    assert(nbv.contains(h));
    lemma_split_block(s, bv, stack, built, a, nbv, x, h, t);
}

/// After a block decoded from an address that no block holds is inserted,
/// the building facts hold with its successors still to visit.
proof fn lemma_after_add(
    s: Seq<u8>,
    blocks: Seq<InstructionBlock>,
    index: int,
    a: u32,
    block: InstructionBlock,
    stack: Seq<u32>,
    built: Set<int>,
)
    requires
        building(s, blocks_view(blocks), stack.push(a), built),
        0 <= index <= blocks.len(),
        forall|j: int| 0 <= j < blocks.len() ==> !(#[trigger] blocks[j].range.start <= a < blocks[j].range.end),
        a < s.len(),
        block_ok(s, block_view(block)),
        block.range.start == a,
        ends_with_branch(block_view(block)),
        successors_on_chain(s, block_successors(block_view(block))),
    ensures
        !built.contains(a as int),
        building(s, blocks_view(blocks.insert(index, block)), stack + block_successors(block_view(block)),
            built.insert(a as int)),
{
    reveal(building);
    let bv = blocks_view(blocks);
    let nb = block_view(block);
    let nbv = bv.insert(index, nb);
    assert(blocks_view(blocks.insert(index, block)) =~= nbv);
    lemma_insert_contains(bv, index, nb);
    assert forall|b: (int, int, Seq<(int, int, Instr)>)| #[trigger] bv.contains(b) implies !(b.0 <= a < b.1) by {
        let j = choose|j: int| 0 <= j < bv.len() && bv[j] == b;
        assert(bv[j] == block_view(blocks[j]));
    }
    lemma_add_block(s, bv, stack, built, a, nbv, nb);
}

/// The blocks of a method's code.
pub struct InstructionBlockMap {
    blocks: Vec<InstructionBlock>,
}

/// Whether the blocks' starts increase strictly along the sequence.
pub open spec fn starts_sorted(bs: Seq<InstructionBlock>) -> bool {
    forall|i: int, j: int| 0 <= i < j < bs.len() ==> #[trigger] bs[i].range.start < #[trigger] bs[j].range.start
}

/// Finds the last block that holds `addr`; when none does, the position
/// before the first block that starts after it.
fn locate(blocks: &Vec<InstructionBlock>, addr: u32) -> (r: Result<usize, usize>)
    ensures
        r matches Ok(i) ==> i < blocks@.len() && blocks@[i as int].range.start <= addr < blocks@[i as int].range.end
            && forall|k: int| i < k < blocks@.len() ==> !(#[trigger] blocks@[k].range.start <= addr < blocks@[k].range.end),
        r matches Err(i) ==> i <= blocks@.len() && (forall|k: int| 0 <= k < blocks@.len() ==>
            !(#[trigger] blocks@[k].range.start <= addr < blocks@[k].range.end))
            && (forall|k: int| 0 <= k < i ==> #[trigger] blocks@[k].range.start <= addr)
            && (i < blocks@.len() ==> blocks@[i as int].range.start > addr),
{
    let mut found: Option<usize> = None;
    let mut i: usize = 0;
    while i < blocks.len()
        invariant
            i <= blocks@.len(),
            found matches Some(f) ==> f < i && blocks@[f as int].range.start <= addr < blocks@[f as int].range.end,
            forall|k: int| (if let Some(f) = found { f as int } else { -1int }) < k < i ==> !(#[trigger] blocks@[k].range.start <= addr < blocks@[k].range.end),
        decreases blocks@.len() - i,
    {
        if blocks[i].range.start <= addr && addr < blocks[i].range.end {
            found = Some(i);
        }
        i += 1;
    }
    if let Some(f) = found {
        return Ok(f);
    }
    let mut j: usize = 0;
    while j < blocks.len() && blocks[j].range.start <= addr
        invariant
            j <= blocks@.len(),
            forall|k: int| 0 <= k < j ==> #[trigger] blocks@[k].range.start <= addr,
        decreases blocks@.len() - j,
    {
        j += 1;
    }
    Err(j)
}

/// The position after `index` before the first block that starts after `a`.
fn position_after(blocks: &Vec<InstructionBlock>, index: usize, a: u32) -> (r: usize)
    requires
        index < blocks@.len(),
    ensures
        index < r <= blocks@.len(),
        forall|k: int| index < k < r ==> #[trigger] blocks@[k].range.start <= a,
        r < blocks@.len() ==> blocks@[r as int].range.start > a,
{
    let n = blocks.len();
    let mut j: usize = index + 1;
    while j < blocks.len() && blocks[j].range.start <= a
        invariant
            index < j <= blocks@.len(),
            forall|k: int| index < k < j ==> #[trigger] blocks@[k].range.start <= a,
        decreases blocks@.len() - j,
    {
        j += 1;
    }
    j
}

/// Every block starts before it ends.
proof fn lemma_all_nonempty(s: Seq<u8>, blocks: Seq<InstructionBlock>, stack: Seq<u32>, built: Set<int>)
    requires
        building(s, blocks_view(blocks), stack, built),
    ensures
        forall|k: int| 0 <= k < blocks.len() ==> #[trigger] blocks[k].range.start < blocks[k].range.end,
{
    let bv = blocks_view(blocks);
    lemma_building_parts(s, bv, stack, built);
    reveal(all_blocks_ok);
    assert forall|k: int| 0 <= k < blocks.len() implies #[trigger] blocks[k].range.start < blocks[k].range.end by {
        assert(bv[k] == block_view(blocks[k]));
        assert(bv.contains(bv[k]));
        lemma_block_nonempty(s, bv[k]);
    }
}

/// Inserting a block between the blocks that start before it and those
/// that start after it keeps the starts increasing.
proof fn lemma_insert_sorted(bs: Seq<InstructionBlock>, pos: int, x: InstructionBlock)
    requires
        starts_sorted(bs),
        0 <= pos <= bs.len(),
        forall|k: int| 0 <= k < pos ==> #[trigger] bs[k].range.start < x.range.start,
        forall|k: int| pos <= k < bs.len() ==> #[trigger] bs[k].range.start > x.range.start,
    ensures
        starts_sorted(bs.insert(pos, x)),
{
    let n = bs.insert(pos, x);
    assert forall|i: int, j: int| 0 <= i < j < n.len() implies #[trigger] n[i].range.start < #[trigger] n[j].range.start by {
        if i < pos {
            assert(n[i] == bs[i]);
            if j < pos {
                assert(n[j] == bs[j]);
            } else if j > pos {
                assert(n[j] == bs[j - 1]);
            }
        } else if i == pos {
            assert(n[j] == bs[j - 1]);
        } else {
            assert(n[i] == bs[i - 1]);
            assert(n[j] == bs[j - 1]);
        }
    }
}

/// A block decoded from an address that no block holds, put before the
/// first block that starts after it, keeps the starts increasing.
proof fn lemma_add_sorted(
    s: Seq<u8>,
    blocks: Seq<InstructionBlock>,
    index: int,
    a: u32,
    block: InstructionBlock,
    stack: Seq<u32>,
    built: Set<int>,
)
    requires
        building(s, blocks_view(blocks), stack, built),
        starts_sorted(blocks),
        0 <= index <= blocks.len(),
        forall|k: int| 0 <= k < blocks.len() ==> !(#[trigger] blocks[k].range.start <= a < blocks[k].range.end),
        forall|k: int| 0 <= k < index ==> #[trigger] blocks[k].range.start <= a,
        index < blocks.len() ==> blocks[index].range.start > a,
        block.range.start == a,
    ensures
        starts_sorted(blocks.insert(index, block)),
{
    lemma_all_nonempty(s, blocks, stack, built);
    assert forall|k: int| 0 <= k < index implies #[trigger] blocks[k].range.start < block.range.start by {
        assert(blocks[k].range.start <= a);
    }
    assert forall|k: int| index <= k < blocks.len() implies #[trigger] blocks[k].range.start > block.range.start by {
        if k > index {
            assert(blocks[index].range.start < blocks[k].range.start);
        }
    }
    lemma_insert_sorted(blocks, index, block);
}

/// Splits the block at `index` at `a` and puts its second half among the
/// blocks in order of start.
fn split_block_at(
    blocks: &mut Vec<InstructionBlock>,
    index: usize,
    a: u32,
    Ghost(s): Ghost<Seq<u8>>,
    Ghost(stack): Ghost<Seq<u32>>,
    Ghost(built): Ghost<Set<int>>,
)
    requires
        building(s, blocks_view(old(blocks)@), stack.push(a), built),
        starts_sorted(old(blocks)@),
        index < old(blocks)@.len(),
        old(blocks)@[index as int].range.start < a < old(blocks)@[index as int].range.end,
        forall|k: int| index < k < old(blocks)@.len() ==> !(#[trigger] old(blocks)@[k].range.start <= a < old(blocks)@[k].range.end),
    ensures
        building(s, blocks_view(final(blocks)@), stack, built),
        starts_sorted(final(blocks)@),
{
    proof {
        let bv = blocks_view(blocks@);
        lemma_building_parts(s, bv, stack.push(a), built);
        reveal(all_blocks_ok);
        assert(bv.contains(bv[index as int]));
        assert(bv[index as int] == block_view(blocks@[index as int]));
        assert(stack.push(a)[stack.len() as int] == a);
        let x = bv[index as int];
        lemma_run_increasing(s, x.2, x.0);
        assert(block_ok(s, x));
        assert(on_chain(s, x.2[x.2.len() - 1].0));
        assert(x.2[x.2.len() - 1].1 <= s.len());
        assert(on_chain(s, a as int));
        lemma_split_point(s, blocks@[index as int], a);
    }
    let ghost old_blocks = blocks@;
    let len = blocks.len();
    let next_block = blocks[index].split(a);
    let ghost head = blocks@[index as int];
    let pos = position_after(&blocks, index, a);
    proof {
        lemma_all_nonempty(s, old_blocks, stack.push(a), built);
        assert(blocks@ == old_blocks.update(index as int, head));
        assert forall|k: int| 0 <= k < pos implies #[trigger] blocks@[k].range.start < a by {
            if k > index {
                assert(old_blocks[k] == blocks@[k]);
            } else if k < index {
                assert(old_blocks[k].range.start < old_blocks[index as int].range.start);
            }
        }
        assert forall|k: int| pos <= k < blocks@.len() implies #[trigger] blocks@[k].range.start > a by {
            if k > pos {
                assert(old_blocks[pos as int].range.start < old_blocks[k].range.start);
            }
        }
        lemma_insert_sorted(blocks@, pos as int, next_block);
    }
    blocks.insert(pos, next_block);
    proof {
        let old_instrs = old_blocks[index as int].instrs@;
        let k = choose|k: int| {
            &&& 0 <= k < old_instrs.len()
            &&& #[trigger] old_instrs[k].range.start == a
            &&& head.instrs@ == old_instrs.take(k)
            &&& next_block.instrs@ == old_instrs.skip(k)
        };
        if k == 0 {
            assert(entries_view(old_instrs)[0].0 == old_blocks[index as int].range.start);
        }
        assert(blocks@ == old_blocks.update(index as int, head).insert(pos as int, next_block));
        lemma_after_split(s, old_blocks, blocks@, index as int, a, head, next_block, k, pos as int, stack, built);
    }
}

impl InstructionBlockMap {
    /// The blocks, as built.
    pub closed spec fn spec_blocks(&self) -> Seq<InstructionBlock> {
        self.blocks@
    }

    /// Splits the code into blocks: from address 0 and from every
    /// successor of a block, a block is decoded, unless a block already
    /// holds the address, which is then split there. Where blocks overlap,
    /// the one with the greatest start that holds the address is split.
    /// The blocks are kept in order of start.
    /// Splits the code into blocks as `build` does, after checking that the
    /// code is well formed: `None` when it is not.
    pub fn build_checked(disasm: Disassembler) -> (r: Option<Result<Self, BlockError>>)
        ensures
            r is None <==> !well_formed_code(disasm.spec_code()),
            r matches Some(Ok(m)) ==> blocks_complete(disasm.spec_code(), blocks_view(m.spec_blocks())),
            r matches Some(Ok(m)) ==> starts_sorted(m.spec_blocks()),
            r matches Some(Err(e)) ==> exists|a: u32| reached(disasm.spec_code(), a)
                && #[trigger] spec_scan(disasm.spec_code(), a as int) == Err::<(Seq<(int, int, Instr)>, Seq<u32>), BlockError>(e),
    {
        if code_well_formed(disasm.code()) {
            Some(Self::build(disasm))
        } else {
            None
        }
    }

    #[verifier::spinoff_prover]
    #[verifier::rlimit(50)]
    pub fn build(disasm: Disassembler) -> (r: Result<Self, BlockError>)
        requires
            disasm.wf(),
            well_formed_code(disasm.spec_code()),
        ensures
            r matches Ok(m) ==> blocks_complete(disasm.spec_code(), blocks_view(m.spec_blocks())),
            r matches Ok(m) ==> starts_sorted(m.spec_blocks()),
            r matches Err(e) ==> exists|a: u32| reached(disasm.spec_code(), a)
                && #[trigger] spec_scan(disasm.spec_code(), a as int) == Err::<(Seq<(int, int, Instr)>, Seq<u32>), BlockError>(e),
    {
        let ghost s = disasm.spec_code();
        let mut dis = disasm;
        let mut blocks: Vec<InstructionBlock> = Vec::new();
        let mut start_addrs: Vec<u32> = Vec::new();
        start_addrs.push(0);
        let ghost mut built: Set<int> = Set::empty();
        proof {
            assert(on_chain(s, 0));
            assert(start_addrs@.contains(0u32)) by {
                assert(start_addrs@[0] == 0u32);
            }
            assert(successors_on_chain(s, start_addrs@));
            reveal(all_blocks_ok);
            reveal(stack_demanded);
            reveal(successors_covered);
            reveal(fallthrough_covered);
            reveal(starts_demanded);
            reveal(built_ok);
            reveal(building);
            assert forall|x: u32| #[trigger] start_addrs@.contains(x) implies x == 0 || demanded(blocks_view(blocks@), x) by {
                let j = choose|j: int| 0 <= j < start_addrs@.len() && start_addrs@[j] == x;
            }
            assert(start_addrs@ == seq![0u32]);
            lemma_reach_start(s, start_addrs@);
        }
        while start_addrs.len() > 0
            invariant
                dis.wf(),
                dis.spec_code() == s,
                s == disasm.spec_code(),
                building(s, blocks_view(blocks@), start_addrs@, built),
                stack_reached(s, start_addrs@),
                starts_sorted(blocks@),
            decreases 3 * (s.len() + 1 - built.len()) + start_addrs@.len(),
        {
            proof {
                lemma_building_parts(s, blocks_view(blocks@), start_addrs@, built);
                reveal(built_ok);
                lemma_int_range(0, s.len() as int);
                assert(built.subset_of(set_int_range(0, s.len() as int)));
                lemma_len_subset(built, set_int_range(0, s.len() as int));
            }
            let ghost before_stack = start_addrs@;
            let start_addr = start_addrs.pop().unwrap();
            let ghost bv = blocks_view(blocks@);
            proof {
                assert(before_stack == start_addrs@.push(start_addr));
                assert(before_stack[before_stack.len() - 1] == start_addr);
                lemma_building_parts(s, bv, before_stack, built);
                assert(start_addr >= s.len() || on_chain(s, start_addr as int));
                lemma_reach_pop(s, start_addrs@, start_addr);
            }
            match locate(&blocks, start_addr) {
                Ok(index) => {
                    proof {
                        reveal(all_blocks_ok);
                        assert(bv.contains(bv[index as int]));
                        assert(bv[index as int] == block_view(blocks@[index as int]));
                    }
                    if start_addr > blocks[index].range.start {
                        split_block_at(&mut blocks, index, start_addr, Ghost(s), Ghost(start_addrs@), Ghost(built));
                    } else {
                        proof {
                            assert(starts_a_block(bv, start_addr as int)) by {
                                assert(bv.contains(bv[index as int]));
                            }
                            lemma_visit_start(s, bv, start_addrs@, built, start_addr);
                        }
                    }
                },
                Err(index) => {
                    dis.set_position(start_addr);
                    proof {
                        if start_addr < s.len() {
                            assert(on_chain(s, start_addr as int));
                            lemma_scan_on_chain(s, start_addr as int);
                        }
                    }
                    let ghost popped = start_addrs@;
                    let block = match InstructionBlock::build(&mut dis, &mut start_addrs) {
                        Ok(b) => b,
                        Err(e) => {
                            proof {
                                assert(spec_scan(s, start_addr as int) == Err::<(Seq<(int, int, Instr)>, Seq<u32>), BlockError>(e));
                                assert(exists|a: u32| reached(s, a)
                                    && #[trigger] spec_scan(s, a as int) == Err::<(Seq<(int, int, Instr)>, Seq<u32>), BlockError>(e));
                            }
                            return Err(e);
                        },
                    };
                    proof {
                        assert(start_addr < s.len());
                        assert(start_addrs@ == popped + block_successors(block_view(block))) by {
                            assert(entries_view(block.instrs@) == spec_scan(s, start_addr as int)->Ok_0.0);
                        }
                        lemma_reach_successors(s, start_addr, popped);
                    }
                    let ghost old_blocks = blocks@;
                    proof {
                        lemma_add_sorted(s, old_blocks, index as int, start_addr, block, popped.push(start_addr), built);
                    }
                    blocks.insert(index, block);
                    proof {
                        lemma_after_add(s, old_blocks, index as int, start_addr, block, popped, built);
                        built = built.insert(start_addr as int);
                    }
                },
            }
        }
        proof {
            lemma_building_parts(s, blocks_view(blocks@), start_addrs@, built);
        }
        Ok(InstructionBlockMap { blocks })
    }

    /// The first block that starts at `addr`; there must be one.
    pub fn block_starting_at(&self, addr: u32) -> (r: &InstructionBlock)
        requires
            exists|k: int| 0 <= k < self.spec_blocks().len() && #[trigger] self.spec_blocks()[k].range.start == addr,
        ensures
            r.range.start == addr,
            exists|k: int| 0 <= k < self.spec_blocks().len() && self.spec_blocks()[k] == *r,
    {
        let mut i: usize = 0;
        while i < self.blocks.len()
            invariant
                i <= self.blocks@.len(),
                exists|k: int| i <= k < self.blocks@.len() && #[trigger] self.blocks@[k].range.start == addr,
            decreases self.blocks@.len() - i,
        {
            if self.blocks[i].range.start == addr {
                assert(self.spec_blocks()[i as int] == self.blocks@[i as int]);
                return &self.blocks[i];
            }
            i += 1;
        }
        proof {
            let k = choose|k: int| i <= k < self.blocks@.len() && #[trigger] self.blocks@[k].range.start == addr;
        }
        &self.blocks[i]
    }
}

} // verus!
