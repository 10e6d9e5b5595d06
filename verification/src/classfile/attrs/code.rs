//! The `Code` attribute of a method.
use vstd::prelude::*;
use crate::classfile::error::ClassFileError;
use crate::classfile::buffer::{copy_range, read_u16, read_u32, spec_u16, spec_u32, spec_take};
use crate::classfile::constant_pool::{ConstantIndex, ConstantPool, SpecConstant, spec_index};
use crate::classfile::attrs::{
    Attributes, RawAttribute, SpecAttributes, spec_attributes, spec_attributes_names_known, attributes_names_known,
};
use crate::classfile::instructions::Disassembler;

verus! {

/// One entry of a method's exception table.
#[derive(Clone, Copy, Debug, PartialEq, Eq, Structural)]
pub struct ExceptionTableEntry {
    pub start_pc: u16,
    pub end_pc: u16,
    pub handler_pc: u16,
    pub catch_type: ConstantIndex,
}

/// The code of a method.
#[derive(Debug)]
pub struct Code {
    pub max_stack: u16,
    pub max_locals: u16,
    pub code: Vec<u8>,
    pub exception_table: Vec<ExceptionTableEntry>,
    pub attributes: Attributes,
}

/// The mathematical value of a `Code` attribute.
pub struct SpecCode {
    pub max_stack: u16,
    pub max_locals: u16,
    pub code: Seq<u8>,
    pub exception_table: Seq<ExceptionTableEntry>,
    pub attributes: SpecAttributes,
}

impl View for Code {
    type V = SpecCode;

    open spec fn view(&self) -> SpecCode {
        SpecCode {
            max_stack: self.max_stack,
            max_locals: self.max_locals,
            code: self.code@,
            exception_table: self.exception_table@,
            attributes: self.attributes@,
        }
    }
}

/// Reads `n` exception table entries at `p`.
pub open spec fn spec_exception_entries(s: Seq<u8>, p: int, n: nat) -> Result<(Seq<ExceptionTableEntry>, int), ClassFileError>
    decreases n,
{
    if n == 0 {
        Ok((Seq::empty(), p))
    } else {
        match spec_u16(s, p) {
            Ok((a, q)) => match spec_u16(s, q) {
                Ok((b, r)) => match spec_u16(s, r) {
                    Ok((c, t)) => match spec_index(s, t) {
                        Ok((d, w)) => match spec_exception_entries(s, w, (n - 1) as nat) {
                            Ok((rest, x)) => Ok((seq![ExceptionTableEntry { start_pc: a, end_pc: b, handler_pc: c, catch_type: d }] + rest, x)),
                            Err(e) => Err(e),
                        },
                        Err(e) => Err(e),
                    },
                    Err(e) => Err(e),
                },
                Err(e) => Err(e),
            },
            Err(e) => Err(e),
        }
    }
}

/// Reads everything of a `Code` body before its attributes: the limits, the
/// code bytes and the exception table, and the position after them.
pub open spec fn spec_code_head(s: Seq<u8>) -> Result<(u16, u16, Seq<u8>, Seq<ExceptionTableEntry>, int), ClassFileError> {
    match spec_u16(s, 0) {
        Ok((max_stack, p1)) => match spec_u16(s, p1) {
            Ok((max_locals, p2)) => match spec_u32(s, p2) {
                Ok((len, p3)) => match spec_take(s, p3, len as int) {
                    Ok(p4) => match spec_u16(s, p4) {
                        Ok((n, p5)) => match spec_exception_entries(s, p5, n as nat) {
                            Ok((table, p6)) => Ok((max_stack, max_locals, s.subrange(p3, p4), table, p6)),
                            Err(e) => Err(e),
                        },
                        Err(e) => Err(e),
                    },
                    Err(e) => Err(e),
                },
                Err(e) => Err(e),
            },
            Err(e) => Err(e),
        },
        Err(e) => Err(e),
    }
}

/// Decodes a `Code` body.
pub open spec fn spec_code(s: Seq<u8>, pool: Seq<SpecConstant>) -> Result<SpecCode, ClassFileError> {
    match spec_code_head(s) {
        Ok((max_stack, max_locals, code, exception_table, p)) => match spec_attributes(s, p, pool) {
            Ok((attributes, _)) => Ok(SpecCode { max_stack, max_locals, code, exception_table, attributes }),
            Err(e) => Err(e),
        },
        Err(e) => Err(e),
    }
}

/// The nested attributes of a `Code` body name entries of the pool.
pub open spec fn spec_code_names_known(s: Seq<u8>, pool: Seq<SpecConstant>) -> bool {
    match spec_code_head(s) {
        Ok((_, _, _, _, p)) => spec_attributes_names_known(s, p, pool),
        Err(_) => true,
    }
}

fn parse_exception_entries(bytes: &[u8], pos: usize, n: u16) -> (r: Result<(Vec<ExceptionTableEntry>, usize), ClassFileError>)
    requires
        pos <= bytes@.len(),
    ensures
        match spec_exception_entries(bytes@, pos as int, n as nat) {
            Ok((t, q)) => r matches Ok((x, y)) && x@ == t && y as int == q && pos <= q <= bytes@.len(),
            Err(e) => r == Err::<(Vec<ExceptionTableEntry>, usize), ClassFileError>(e),
        },
{
    let mut table: Vec<ExceptionTableEntry> = Vec::new();
    let mut cur = pos;
    let mut i: u16 = 0;
    while i < n
        invariant
            i <= n,
            pos <= cur <= bytes@.len(),
            spec_exception_entries(bytes@, pos as int, n as nat) == (match spec_exception_entries(bytes@, cur as int, (n - i) as nat) {
                Ok((rest, q)) => Ok((table@ + rest, q)),
                Err(e) => Err::<(Seq<ExceptionTableEntry>, int), ClassFileError>(e),
            }),
        decreases n - i,
    {
        let (a, q) = match read_u16(bytes, cur) { Ok(x) => x, Err(e) => return Err(e) };
        let (b, q) = match read_u16(bytes, q) { Ok(x) => x, Err(e) => return Err(e) };
        let (c, q) = match read_u16(bytes, q) { Ok(x) => x, Err(e) => return Err(e) };
        let (d, q) = match ConstantIndex::parse(bytes, q) { Ok(x) => x, Err(e) => return Err(e) };
        let ent = ExceptionTableEntry { start_pc: a, end_pc: b, handler_pc: c, catch_type: d };
        let ghost before = table@;
        table.push(ent);
        proof {
            let tail = spec_exception_entries(bytes@, q as int, (n - i - 1) as nat);
            if tail is Ok {
                assert(before + (seq![ent] + tail->Ok_0.0) =~= table@ + tail->Ok_0.0);
            }
        }
        cur = q;
        i = i + 1;
    }
    assert(table@ + Seq::<ExceptionTableEntry>::empty() =~= table@);
    Ok((table, cur))
}

impl Code {
    /// Decodes a `Code` attribute body; nested attribute names are looked
    /// up in `consts`.
    pub fn decode(raw: &RawAttribute, consts: &ConstantPool) -> (r: Result<Code, ClassFileError>)
        requires
            spec_code_names_known(raw@, consts@),
        ensures
            match spec_code(raw@, consts@) {
                Ok(c) => r matches Ok(x) && x@ == c,
                Err(e) => r matches Err(x) && x == e,
            },
    {
        let bytes = raw.as_ref();
        let (max_stack, p) = match read_u16(bytes, 0) { Ok(x) => x, Err(e) => return Err(e) };
        let (max_locals, p) = match read_u16(bytes, p) { Ok(x) => x, Err(e) => return Err(e) };
        let (len, p) = match read_u32(bytes, p) { Ok(x) => x, Err(e) => return Err(e) };
        if bytes.len() - p < len as usize {
            return Err(ClassFileError::UnexpectedEof);
        }
        let end = p + len as usize;
        let code = copy_range(bytes, p, end);
        let (n, p) = match read_u16(bytes, end) { Ok(x) => x, Err(e) => return Err(e) };
        let (exception_table, p) = match parse_exception_entries(bytes, p, n) { Ok(x) => x, Err(e) => return Err(e) };
        let (attributes, _) = match Attributes::parse(bytes, p, consts) { Ok(x) => x, Err(e) => return Err(e) };
        Ok(Code { max_stack, max_locals, code, exception_table, attributes })
    }

    /// Whether the names of the attributes nested in a `Code` body are all in
    /// the pool (see `spec_code_names_known`).
    pub fn names_known(raw: &RawAttribute, consts: &ConstantPool) -> (r: bool)
        ensures
            r == spec_code_names_known(raw@, consts@),
    {
        let bytes = raw.as_ref();
        let (_, p) = match read_u16(bytes, 0) { Ok(x) => x, Err(_) => return true };
        let (_, p) = match read_u16(bytes, p) { Ok(x) => x, Err(_) => return true };
        let (len, p) = match read_u32(bytes, p) { Ok(x) => x, Err(_) => return true };
        if bytes.len() - p < len as usize {
            return true;
        }
        let end = p + len as usize;
        let (n, p) = match read_u16(bytes, end) { Ok(x) => x, Err(_) => return true };
        let (_, p) = match parse_exception_entries(bytes, p, n) { Ok(x) => x, Err(_) => return true };
        attributes_names_known(bytes, p, consts)
    }

    /// Decodes a `Code` body where `decode` can: `None` when a nested
    /// attribute's name is not in the pool.
    pub fn decode_checked(raw: &RawAttribute, consts: &ConstantPool) -> (r: Option<Result<Code, ClassFileError>>)
        ensures
            r is None <==> !spec_code_names_known(raw@, consts@),
            r matches Some(x) ==> match spec_code(raw@, consts@) {
                Ok(c) => x matches Ok(y) && y@ == c,
                Err(e) => x matches Err(y) && y == e,
            },
    {
        if Code::names_known(raw, consts) {
            Some(Code::decode(raw, consts))
        } else {
            None
        }
    }

    /// A disassembler over the code bytes, at their start.
    pub fn disassemble(&self) -> (r: Disassembler)
        requires
            self.code@.len() <= u32::MAX,
        ensures
            r.wf(),
            r.spec_code() == self.code@,
            r.spec_pos() == 0,
    {
        let code = self.code.clone();
        assert(code@ =~= self.code@);
        Disassembler::new(code)
    }

    /// An iterator over the exception table that yields, once for each
    /// entry of the table, the handler that the table starts with.
    pub fn exception_handlers(&self) -> (r: ExceptionHandlers)
        ensures
            r.spec_count() == self.exception_table@.len(),
            r.spec_count() > 0 ==> r.spec_first() == self.exception_table@[0],
    {
        let first = if self.exception_table.len() > 0 {
            Some(self.exception_table[0])
        } else {
            None
        };
        ExceptionHandlers { first, count: self.exception_table.len() }
    }
}

/// An exception handler of a method.
pub type ExceptionHandler = ExceptionTableEntry;

/// The exception handlers of a method: as many as the table holds, each
/// one read from the start of the table.
#[derive(Debug)]
pub struct ExceptionHandlers {
    first: Option<ExceptionTableEntry>,
    count: usize,
}

impl ExceptionHandlers {
    #[verifier::type_invariant]
    spec fn inv(&self) -> bool {
        self.count > 0 ==> self.first is Some
    }

    /// How many handlers are still to come.
    pub closed spec fn spec_count(&self) -> nat {
        self.count as nat
    }

    /// The handler at the start of the table.
    pub closed spec fn spec_first(&self) -> ExceptionTableEntry {
        self.first->Some_0
    }

    /// The next handler: the first one of the table, while any are left.
    pub fn next(&mut self) -> (r: Option<ExceptionHandler>)
        ensures
            old(self).spec_count() == 0 ==> r is None && final(self).spec_count() == 0,
            old(self).spec_count() > 0 ==> r == Some(old(self).spec_first())
                && final(self).spec_count() == old(self).spec_count() - 1,
            final(self).spec_first() == old(self).spec_first(),
    {
        proof {
            use_type_invariant(&*self);
        }
        if self.count == 0 {
            return None;
        }
        self.count = self.count - 1;
        self.first
    }
}

} // verus!
