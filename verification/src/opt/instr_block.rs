//! The split of a method's code into blocks of instructions: a block runs
//! up to a return, a branch on zero, or an instruction that may throw.
use vstd::prelude::*;
use std::ops::Range;
use crate::classfile::error::ClassFileError;
use crate::classfile::instructions::{
    Disassembler, Instr, decode_at, is_undecodable_opcode, spec_decode_at, spec_may_throw,
    law_decode_advances,
};
use vstd::arithmetic::div_mod::lemma_mod_add_multiples_vanish;

verus! {

/// An instruction and the addresses it occupies.
#[derive(Debug)]
pub struct InstructionWithRange {
    pub range: Range<u32>,
    pub instr: Instr,
}

/// The start, end and instruction of an entry.
pub open spec fn entry_view(i: InstructionWithRange) -> (int, int, Instr) {
    (i.range.start as int, i.range.end as int, i.instr)
}

/// The entries of a block, viewed.
pub open spec fn entries_view(s: Seq<InstructionWithRange>) -> Seq<(int, int, Instr)> {
    s.map_values(|i: InstructionWithRange| entry_view(i))
}

/// Why a block could not be read.
#[derive(Clone, Copy, Debug, PartialEq, Eq, Structural)]
pub enum BlockError {
    /// An instruction could not be decoded.
    Decode(ClassFileError),
    /// The code ended before the block did.
    EndOfCode,
}

/// A run of instructions that ends at a return, a branch on zero, or an
/// instruction that may throw.
#[derive(Debug)]
pub struct InstructionBlock {
    pub range: Range<u32>,
    pub instrs: Vec<InstructionWithRange>,
    pub exception_handlers: (),
}

/// Whether a block ends after this instruction.
pub open spec fn ends_block(i: Instr) -> bool {
    i is Return || i is IfEq || spec_may_throw(i)
}

/// The addresses at which blocks start after the instruction at `p..q`
/// that ends a block: after a branch on zero, the next instruction and the
/// branch target (wrapped to 32 bits); after an instruction that may throw,
/// the next instruction; after a return, none.
pub open spec fn next_starts(i: Instr, p: int, q: int) -> Seq<u32> {
    match i {
        Instr::Return => Seq::empty(),
        Instr::IfEq(off) => seq![q as u32, ((p + off) % 0x1_0000_0000) as u32],
        _ => if spec_may_throw(i) { seq![q as u32] } else { Seq::empty() },
    }
}

/// The instructions decoded from `p` up to the one that ends the block, and
/// the addresses at which blocks start after it; an error when decoding
/// fails or the code ends first.
pub open spec fn spec_scan(s: Seq<u8>, p: int) -> Result<(Seq<(int, int, Instr)>, Seq<u32>), BlockError>
    decreases s.len() - p,
{
    if p < 0 || p >= s.len() {
        Err(BlockError::EndOfCode)
    } else {
        match spec_decode_at(s, p) {
            Err(e) => Err(BlockError::Decode(e)),
            Ok((i, q)) => if q <= p {
                Err(BlockError::EndOfCode)
            } else if ends_block(i) {
                Ok((seq![(p, q, i)], next_starts(i, p, q)))
            } else {
                match spec_scan(s, q) {
                    Ok((rest, st)) => Ok((seq![(p, q, i)] + rest, st)),
                    Err(e) => Err(e),
                }
            },
        }
    }
}

/// Whether every instruction that a scan from `p` reaches has an opcode
/// that the decoder provides.
pub open spec fn scan_decodable(s: Seq<u8>, p: int) -> bool
    decreases s.len() - p,
{
    if p < 0 || p >= s.len() {
        true
    } else if is_undecodable_opcode(s[p]) {
        false
    } else {
        match spec_decode_at(s, p) {
            Ok((i, q)) => if q > p && !ends_block(i) { scan_decodable(s, q) } else { true },
            Err(_) => true,
        }
    }
}

/// Whether instruction starts increase strictly along the sequence.
pub open spec fn starts_increasing(s: Seq<InstructionWithRange>) -> bool {
    forall|i: int, j: int| 0 <= i < j < s.len() ==> #[trigger] s[i].range.start < #[trigger] s[j].range.start
}

/// Finds the entry that starts at `addr` by binary search.
fn find_instr(instrs: &Vec<InstructionWithRange>, addr: u32) -> (r: usize)
    requires
        starts_increasing(instrs@),
        exists|k: int| 0 <= k < instrs@.len() && #[trigger] instrs@[k].range.start == addr,
    ensures
        r < instrs@.len(),
        instrs@[r as int].range.start == addr,
{
    let mut lo: usize = 0;
    let mut hi: usize = instrs.len();
    while lo + 1 < hi
        invariant
            0 <= lo < hi <= instrs@.len(),
            starts_increasing(instrs@),
            exists|k: int| lo <= k < hi && #[trigger] instrs@[k].range.start == addr,
        decreases hi - lo,
    {
        let mid = lo + (hi - lo) / 2;
        if instrs[mid].range.start <= addr {
            proof {
                let k = choose|k: int| lo <= k < hi && #[trigger] instrs@[k].range.start == addr;
                if k < mid {
                    assert(instrs@[k].range.start < instrs@[mid as int].range.start);
                }
            }
            lo = mid;
        } else {
            proof {
                let k = choose|k: int| lo <= k < hi && #[trigger] instrs@[k].range.start == addr;
                if k >= mid {
                    if k > mid {
                        assert(instrs@[mid as int].range.start < instrs@[k].range.start);
                    }
                }
            }
            hi = mid;
        }
    }
    lo
}

impl InstructionBlock {
    /// Cuts the block at the instruction that starts at `addr`: the block
    /// keeps what lies before it, and the rest is returned.
    pub fn split(&mut self, addr: u32) -> (r: InstructionBlock)
        requires
            starts_increasing(old(self).instrs@),
            exists|k: int| 0 <= k < old(self).instrs@.len() && #[trigger] old(self).instrs@[k].range.start == addr,
        ensures
            exists|k: int| {
                &&& 0 <= k < old(self).instrs@.len()
                &&& #[trigger] old(self).instrs@[k].range.start == addr
                &&& final(self).instrs@ == old(self).instrs@.take(k)
                &&& r.instrs@ == old(self).instrs@.skip(k)
            },
            final(self).instrs@ + r.instrs@ == old(self).instrs@,
            final(self).range.start == old(self).range.start,
            final(self).range.end == addr,
            r.range.start == addr,
            r.range.end == old(self).range.end,
    {
        let index = find_instr(&self.instrs, addr);
        let tail_instrs = self.instrs.split_off(index);
        let tail_block = InstructionBlock {
            range: Range { start: addr, end: self.range.end },
            instrs: tail_instrs,
            exception_handlers: (),
        };
        self.range.end = addr;
        assert(self.instrs@ =~= old(self).instrs@.take(index as int));
        assert(tail_block.instrs@ =~= old(self).instrs@.skip(index as int));
        assert(self.instrs@ + tail_block.instrs@ =~= old(self).instrs@);
        tail_block
    }

    /// Decodes a block from the disassembler's position, and adds the
    /// addresses of the blocks that follow it to `start_addrs`.
    pub fn build(disasm: &mut Disassembler, start_addrs: &mut Vec<u32>) -> (r: Result<Self, BlockError>)
        requires
            old(disasm).wf(),
            scan_decodable(old(disasm).spec_code(), old(disasm).spec_pos() as int),
        ensures
            final(disasm).wf(),
            final(disasm).spec_code() == old(disasm).spec_code(),
            match spec_scan(old(disasm).spec_code(), old(disasm).spec_pos() as int) {
                Ok((instrs, starts)) => r matches Ok(b) && {
                    &&& b.range.start == old(disasm).spec_pos()
                    &&& b.range.end == instrs.last().1
                    &&& entries_view(b.instrs@) == instrs
                    &&& final(start_addrs)@ == old(start_addrs)@ + starts
                    &&& final(disasm).spec_pos() == b.range.end
                },
                Err(e) => r == Err::<Self, BlockError>(e),
            },
    {
        let ghost s = disasm.spec_code();
        let ghost p0 = disasm.spec_pos() as int;
        let start_addr = disasm.position();
        let mut instrs: Vec<InstructionWithRange> = Vec::new();
        loop
            invariant
                disasm.wf(),
                disasm.spec_code() == s,
                s == old(disasm).spec_code(),
                p0 == old(disasm).spec_pos(),
                start_addr == p0,
                start_addrs@ == old(start_addrs)@,
                scan_decodable(s, disasm.spec_pos() as int),
                spec_scan(s, p0) == match spec_scan(s, disasm.spec_pos() as int) {
                    Ok((rest, st)) => Ok((entries_view(instrs@) + rest, st)),
                    Err(e) => Err::<(Seq<(int, int, Instr)>, Seq<u32>), BlockError>(e),
                },
            decreases s.len() - disasm.spec_pos(),
        {
            let ghost p = disasm.spec_pos() as int;
            proof {
                if p < s.len() {
                    law_decode_advances(s, p);
                }
            }
            match disasm.decode_next() {
                Err(e) => {
                    return Err(BlockError::Decode(e));
                },
                Ok(None) => {
                    return Err(BlockError::EndOfCode);
                },
                Ok(Some((curr_addr, instr))) => {
                    let next_addr = disasm.position();
                    let should_break = match &instr {
                        Instr::Return => true,
                        Instr::IfEq(offset) => {
                            let sum: i64 = curr_addr as i64 + *offset as i64;
                            let if_addr: u32 = #[verifier::truncate] (sum as u32);
                            assert(if_addr as int == (curr_addr as int + *offset as int) % 0x1_0000_0000) by (bit_vector)
                                requires
                                    sum == curr_addr as i64 + *offset as i64,
                                    if_addr == sum as u32,
                            ;
                            start_addrs.push(next_addr);
                            start_addrs.push(if_addr);
                            true
                        },
                        _ => if instr.may_throw_runtime_exception() {
                            start_addrs.push(next_addr);
                            true
                        } else {
                            false
                        },
                    };
                    let ghost before = entries_view(instrs@);
                    instrs.push(InstructionWithRange { range: Range { start: curr_addr, end: next_addr }, instr });
                    assert(entries_view(instrs@) =~= before.push((curr_addr as int, next_addr as int, instr)));
                    if should_break {
                        assert(start_addrs@ =~= old(start_addrs)@ + next_starts(instr, p, next_addr as int));
                        assert(before + seq![(p, next_addr as int, instr)] =~= entries_view(instrs@));
                        return Ok(InstructionBlock {
                            range: Range { start: start_addr, end: next_addr },
                            instrs,
                            exception_handlers: (),
                        });
                    }
                    proof {
                        let tail = spec_scan(s, next_addr as int);
                        if tail is Ok {
                            assert(before + (seq![(p, next_addr as int, instr)] + tail->Ok_0.0)
                                =~= entries_view(instrs@) + tail->Ok_0.0);
                        }
                    }
                },
            }
        }
    }
}

/// Whether `a` is reached when the code is decoded one instruction after
/// the other from `p`.
pub open spec fn on_chain_from(s: Seq<u8>, p: int, a: int) -> bool
    decreases s.len() - p,
{
    if p == a {
        true
    } else if p < 0 || p >= s.len() || p > a {
        false
    } else {
        match spec_decode_at(s, p) {
            Ok((_, q)) => if q > p { on_chain_from(s, q, a) } else { false },
            Err(_) => false,
        }
    }
}

/// Whether `a` is the start of an instruction (or the end of the code)
/// when the code is decoded one instruction after the other from its start.
pub open spec fn on_chain(s: Seq<u8>, a: int) -> bool {
    on_chain_from(s, 0, a)
}

/// Code whose instructions, decoded from the start, all have opcodes that
/// the decoder provides, and whose branches on zero all target an
/// instruction start or a place past the end.
pub open spec fn well_formed_code(s: Seq<u8>) -> bool {
    &&& s.len() <= u32::MAX
    &&& forall|a: int| #[trigger] on_chain(s, a) && a < s.len() ==> {
        &&& !is_undecodable_opcode(s[a])
        &&& (spec_decode_at(s, a) matches Ok((Instr::IfEq(off), _)) ==> {
            let t = (a + off) % 0x1_0000_0000;
            t >= s.len() || on_chain(s, t)
        })
    }
}

/// Past an instruction on the chain the chain goes on only where that
/// instruction lies in the code and decodes to one that ends after it.
proof fn lemma_chain_continues_from(s: Seq<u8>, x: int, p: int, a: int)
    requires
        on_chain_from(s, x, p),
        on_chain_from(s, x, a),
        p < a,
    ensures
        0 <= p < s.len(),
        spec_decode_at(s, p) matches Ok((_, q)) && q > p,
    decreases s.len() - x,
{
    if x != p {
        lemma_chain_le(s, x, p);
        let q = spec_decode_at(s, x)->Ok_0.1;
        lemma_chain_le(s, q, p);
        lemma_chain_continues_from(s, q, p, a);
    }
}

/// A branch on zero at `a` targets an instruction start or a place past
/// the end.
pub open spec fn branch_target_ok(s: Seq<u8>, a: int) -> bool {
    spec_decode_at(s, a) matches Ok((Instr::IfEq(off), _)) ==> {
        let t = (a + off) % 0x1_0000_0000;
        t >= s.len() || on_chain(s, t)
    }
}

/// Whether `code` is well formed: whether `InstructionBlockMap::build` can
/// take it.
pub fn code_well_formed(code: &[u8]) -> (r: bool)
    ensures
        r == well_formed_code(code@),
{
    let ghost s = code@;
    let n = code.len();
    if n as u64 > 0xffff_ffffu64 {
        return false;
    }
    let mut marks: Vec<bool> = Vec::new();
    let mut i: usize = 0;
    while i < n
        invariant
            i <= n,
            marks@.len() == i,
            forall|k: int| 0 <= k < i ==> !marks@[k],
        decreases n - i,
    {
        marks.push(false);
        i += 1;
    }
    let mut p: usize = 0;
    let mut ended = false;
    assert(on_chain(s, 0));
    while !ended && p < n
        invariant
            s == code@,
            n == s.len(),
            n <= u32::MAX,
            marks@.len() == n,
            on_chain(s, p as int),
            ended ==> p < n && forall|a: int| #[trigger] on_chain(s, a) && a < n ==> a <= p,
            forall|a: int| 0 <= a < n ==> (#[trigger] marks@[a] <==> (on_chain(s, a) && (a < p || (ended && a == p)))),
            forall|a: int| #[trigger] on_chain(s, a) && a < n && (a < p || (ended && a == p))
                ==> !is_undecodable_opcode(s[a]),
        decreases n - p, (if ended { 0int } else { 1int }),
    {
        let op = code[p];
        if op == 0xabu8 || op == 0xc5u8 || op == 0xaau8 {
            assert(on_chain(s, p as int) && p < n && is_undecodable_opcode(s[p as int]));
            return false;
        }
        let ghost before = marks@;
        marks.set(p, true);
        assert(marks@ == before.update(p as int, true));
        let ghost old_p = p as int;
        match decode_at(code, p) {
            Ok((_, q)) => {
                if q > p && q < n {
                    proof {
                        lemma_chain_step_from(s, 0, p as int);
                        assert forall|a: int| on_chain(s, a) && p < a implies q <= a by {
                            lemma_chain_order_from(s, 0, p as int, a);
                        }
                    }
                    p = q;
                    assert forall|a: int| 0 <= a < n implies (marks@[a] <==> (on_chain(s, a) && a < p)) by {
                        if a != old_p {
                            assert(marks@[a] == before[a]);
                            assert(before[a] <==> (on_chain(s, a) && a < old_p));
                        } else {
                            assert(on_chain(s, old_p));
                        }
                    }
                } else {
                    ended = true;
                    assert forall|a: int| 0 <= a < n implies (marks@[a] <==> (on_chain(s, a) && (a < p || a == p))) by {
                        if a != old_p {
                            assert(marks@[a] == before[a]);
                            assert(before[a] <==> (on_chain(s, a) && a < old_p));
                        } else {
                            assert(on_chain(s, old_p));
                        }
                    }
                    proof {
                        assert forall|a: int| #[trigger] on_chain(s, a) && a < n implies a <= p by {
                            if a > p {
                                lemma_chain_continues_from(s, 0, p as int, a);
                                lemma_chain_order_from(s, 0, p as int, a);
                            }
                        }
                    }
                }
            },
            Err(_) => {
                ended = true;
                assert forall|a: int| 0 <= a < n implies (marks@[a] <==> (on_chain(s, a) && (a < p || a == p))) by {
                    if a != old_p {
                    assert(marks@[a] == before[a]);
                    }
                }
                proof {
                    assert forall|a: int| #[trigger] on_chain(s, a) && a < n implies a <= p by {
                        if a > p {
                            lemma_chain_continues_from(s, 0, p as int, a);
                        }
                    }
                }
            },
        }
    }
    assert forall|a: int| 0 <= a < n implies (marks@[a] <==> on_chain(s, a)) by {
        if on_chain(s, a) && !ended {
            assert(a < p);
        }
    }
    let mut a: usize = 0;
    while a < n
        invariant
            s == code@,
            n == s.len(),
            n <= u32::MAX,
            a <= n,
            marks@.len() == n,
            forall|b: int| 0 <= b < n ==> (marks@[b] <==> on_chain(s, b)),
            forall|b: int| #[trigger] on_chain(s, b) && b < n ==> !is_undecodable_opcode(s[b]),
            forall|b: int| #[trigger] on_chain(s, b) && b < a ==> branch_target_ok(s, b),
        decreases n - a,
    {
        if marks[a] {
            assert(on_chain(s, a as int));
            match decode_at(code, a) {
                Ok((Instr::IfEq(off), _)) => {
                    let sum: i64 = a as i64 + off as i64;
                    let t: u64 = ((sum + 0x1_0000_0000i64) as u64) % 0x1_0000_0000u64;
                    proof {
                        lemma_mod_add_multiples_vanish(sum as int, 0x1_0000_0000);
                    }
                    assert(t as int == (a as int + off as int) % 0x1_0000_0000);
                    if t < n as u64 && !marks[t as usize] {
                        assert(!branch_target_ok(s, a as int));
                        return false;
                    }
                },
                _ => {},
            }
        }
        a += 1;
    }
    assert forall|b: int| #[trigger] on_chain(s, b) && b < s.len() implies {
        &&& !is_undecodable_opcode(s[b])
        &&& (spec_decode_at(s, b) matches Ok((Instr::IfEq(off), _)) ==> {
            let t = (b + off) % 0x1_0000_0000;
            t >= s.len() || on_chain(s, t)
        })
    } by {
        assert(branch_target_ok(s, b));
    }
    true
}

/// Whether `r` is a non-empty run of consecutive instructions from the
/// chain, the first at `p`.
pub open spec fn chain_run(s: Seq<u8>, r: Seq<(int, int, Instr)>, p: int) -> bool {
    &&& r.len() > 0
    &&& r[0].0 == p
    &&& forall|k: int| 0 <= k < r.len() ==> {
        &&& on_chain(s, #[trigger] r[k].0)
        &&& r[k].0 < r[k].1 <= s.len()
        &&& spec_decode_at(s, r[k].0) == Ok::<(Instr, int), ClassFileError>((r[k].2, r[k].1))
    }
    &&& forall|k: int| 0 < k < r.len() ==> r[k - 1].1 == #[trigger] r[k].0
}

/// The run after its first instruction is a run from the second.
pub proof fn lemma_run_tail(s: Seq<u8>, r: Seq<(int, int, Instr)>, p: int)
    requires
        chain_run(s, r, p),
        r.len() > 1,
    ensures
        chain_run(s, r.drop_first(), r[1].0),
{
    let t = r.drop_first();
    assert forall|k: int| 0 <= k < t.len() implies {
        &&& on_chain(s, #[trigger] t[k].0)
        &&& t[k].0 < t[k].1 <= s.len()
        &&& spec_decode_at(s, t[k].0) == Ok::<(Instr, int), ClassFileError>((t[k].2, t[k].1))
    } by {
        assert(t[k] == r[k + 1]);
    }
    assert forall|k: int| 0 < k < t.len() implies t[k - 1].1 == #[trigger] t[k].0 by {
        assert(t[k] == r[k + 1]);
        assert(t[k - 1] == r[k]);
    }
}

pub proof fn lemma_chain_le(s: Seq<u8>, x: int, a: int)
    requires
        on_chain_from(s, x, a),
    ensures
        x <= a,
{
}

/// The instruction after one on the chain is on the chain.
proof fn lemma_chain_step_from(s: Seq<u8>, x: int, p: int)
    requires
        on_chain_from(s, x, p),
        0 <= p < s.len(),
        spec_decode_at(s, p) matches Ok((_, q)) && q > p,
    ensures
        on_chain_from(s, x, spec_decode_at(s, p)->Ok_0.1),
    decreases s.len() - x,
{
    let qp = spec_decode_at(s, p)->Ok_0.1;
    if x != p {
        lemma_chain_le(s, x, p);
        let q = spec_decode_at(s, x)->Ok_0.1;
        lemma_chain_step_from(s, q, p);
        lemma_chain_le(s, q, p);
        assert(on_chain_from(s, q, qp));
        assert(x < qp);
    } else {
        assert(on_chain_from(s, qp, qp));
    }
}

/// Between an instruction on the chain and a later place on the chain lies
/// the whole instruction.
proof fn lemma_chain_order_from(s: Seq<u8>, x: int, p: int, a: int)
    requires
        on_chain_from(s, x, p),
        on_chain_from(s, x, a),
        p < a,
        0 <= p < s.len(),
        spec_decode_at(s, p) matches Ok((_, q)) && q > p,
    ensures
        spec_decode_at(s, p)->Ok_0.1 <= a,
    decreases s.len() - x,
{
    if x == p {
        let q = spec_decode_at(s, p)->Ok_0.1;
        lemma_chain_le(s, q, a);
    } else {
        lemma_chain_le(s, x, p);
        let q = spec_decode_at(s, x)->Ok_0.1;
        lemma_chain_order_from(s, q, p, a);
    }
}

/// Starts of a run increase strictly.
#[verifier::spinoff_prover]
#[verifier::rlimit(30)]
pub proof fn lemma_run_increasing(s: Seq<u8>, r: Seq<(int, int, Instr)>, p: int)
    requires
        chain_run(s, r, p),
    ensures
        forall|i: int, j: int| 0 <= i < j < r.len() ==> #[trigger] r[i].0 < #[trigger] r[j].0,
        forall|i: int| 0 <= i < r.len() ==> #[trigger] r[i].1 <= r.last().1,
    decreases r.len(),
{
    if r.len() > 1 {
        let t = r.drop_first();
        lemma_run_tail(s, r, p);
        lemma_run_increasing(s, t, r[1].0);
        assert forall|i: int, j: int| 0 <= i < j < r.len() implies #[trigger] r[i].0 < #[trigger] r[j].0 by {
            assert(t[j - 1] == r[j]);
            if i == 0 {
                if j > 1 {
                    assert(t[0].0 < t[j - 1].0);
                }
            } else {
                assert(t[i - 1] == r[i]);
                assert(t[i - 1].0 < t[j - 1].0);
            }
        }
        assert forall|i: int| 0 <= i < r.len() implies #[trigger] r[i].1 <= r.last().1 by {
            assert(t.last() == r.last());
            if i == 0 {
                assert(r[0].1 == r[1].0);
                assert(t[0].1 <= t.last().1);
            } else {
                assert(t[i - 1] == r[i]);
                assert(t[i - 1].1 <= t.last().1);
            }
        }
    }
}

/// A place on the chain inside a run is the start of one of its
/// instructions.
pub proof fn lemma_chain_in_run(s: Seq<u8>, r: Seq<(int, int, Instr)>, p: int, a: int)
    requires
        chain_run(s, r, p),
        on_chain(s, a),
        p <= a < r.last().1,
    ensures
        exists|k: int| 0 <= k < r.len() && #[trigger] r[k].0 == a,
    decreases r.len(),
{
    if a != p {
        assert(on_chain(s, r[0].0));
        lemma_chain_le(s, 0, p);
        lemma_chain_order_from(s, 0, p, a);
        if r.len() > 1 {
            lemma_run_tail(s, r, p);
            lemma_chain_in_run(s, r.drop_first(), r[1].0, a);
            let k = choose|k: int| 0 <= k < r.drop_first().len() && #[trigger] r.drop_first()[k].0 == a;
            assert(r[k + 1].0 == a);
        }
    }
}

/// Whether every successor address is on the chain or past the end.
pub open spec fn successors_on_chain(s: Seq<u8>, st: Seq<u32>) -> bool {
    forall|i: int| 0 <= i < st.len() ==> (#[trigger] st[i]) >= s.len() || on_chain(s, st[i] as int)
}

/// An instruction on the chain followed by a run from where it ends is a
/// run.
proof fn lemma_run_cons(s: Seq<u8>, p: int, q: int, i: Instr, rest: Seq<(int, int, Instr)>)
    requires
        on_chain(s, p),
        p < q <= s.len(),
        spec_decode_at(s, p) == Ok::<(Instr, int), ClassFileError>((i, q)),
        !ends_block(i),
        chain_run(s, rest, q),
        forall|k: int| 0 <= k < rest.len() - 1 ==> !ends_block(#[trigger] rest[k].2),
    ensures
        chain_run(s, seq![(p, q, i)] + rest, p),
        forall|k: int| 0 <= k < (seq![(p, q, i)] + rest).len() - 1 ==> !ends_block(#[trigger] (seq![(p, q, i)] + rest)[k].2),
        (seq![(p, q, i)] + rest).last() == rest.last(),
{
    let r = seq![(p, q, i)] + rest;
    assert forall|k: int| 0 <= k < r.len() implies {
        &&& on_chain(s, #[trigger] r[k].0)
        &&& r[k].0 < r[k].1 <= s.len()
        &&& spec_decode_at(s, r[k].0) == Ok::<(Instr, int), ClassFileError>((r[k].2, r[k].1))
    } by {
        if k > 0 {
            assert(r[k] == rest[k - 1]);
        }
    }
    assert forall|k: int| 0 < k < r.len() implies r[k - 1].1 == #[trigger] r[k].0 by {
        assert(r[k] == rest[k - 1]);
        if k > 1 {
            assert(r[k - 1] == rest[k - 2]);
        }
    }
    assert forall|k: int| 0 <= k < r.len() - 1 implies !ends_block(#[trigger] r[k].2) by {
        if k > 0 {
            assert(r[k] == rest[k - 1]);
        }
    }
    assert(r.last() == rest.last());
}

/// A scan of well-formed code from a place on the chain reaches only
/// decodable opcodes, and gives a run of the chain that ends at an
/// instruction that ends a block, with successors on the chain or past the
/// end.
#[verifier::spinoff_prover]
#[verifier::rlimit(50)]
pub proof fn lemma_scan_on_chain(s: Seq<u8>, p: int)
    requires
        well_formed_code(s),
        on_chain(s, p),
    ensures
        scan_decodable(s, p),
        spec_scan(s, p) matches Ok((r, st)) ==> {
            &&& chain_run(s, r, p)
            &&& ends_block(r.last().2)
            &&& st == next_starts(r.last().2, r.last().0, r.last().1)
            &&& successors_on_chain(s, st)
            &&& forall|k: int| 0 <= k < r.len() - 1 ==> !ends_block(#[trigger] r[k].2)
        },
    decreases s.len() - p,
{
    lemma_chain_le(s, 0, p);
    if p < s.len() {
        assert(!is_undecodable_opcode(s[p]));
        law_decode_advances(s, p);
        match spec_decode_at(s, p) {
            Ok((i, q)) => {
                lemma_chain_step_from(s, 0, p);
                assert(on_chain(s, q));
                if ends_block(i) {
                    let r = seq![(p, q, i)];
                    let st = next_starts(i, p, q);
                    assert(chain_run(s, r, p));
                    assert forall|k: int| 0 <= k < st.len() implies (#[trigger] st[k]) >= s.len() || on_chain(s, st[k] as int) by {
                        assert((q as u32) as int == q);
                        if let Instr::IfEq(off) = i {
                            let t = (p + off) % 0x1_0000_0000;
                            assert((t as u32) as int == t);
                        }
                    }
                } else {
                    lemma_scan_on_chain(s, q);
                    match spec_scan(s, q) {
                        Ok((rest, st)) => {
                            lemma_run_cons(s, p, q, i, rest);
                        },
                        Err(_) => {},
                    }
                }
            },
            Err(_) => {},
        }
    }
}

} // verus!
