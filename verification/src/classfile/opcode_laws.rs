//! The JVM's own encoding of each instruction, written out from the class
//! file format's opcode table, and the law that the decoder reads every
//! instruction as the bytes that encode it.
use vstd::prelude::*;
use crate::classfile::buffer::{be16, be32, signed};
use crate::classfile::instructions::{
    Instr, spec_decode_at, no_operand_instr, u8_operand_instr, u16_operand_instr, i16_operand_instr,
    i32_operand_instr, wide_u16_instr,
};

verus! {

/// The byte of a signed byte operand (two's complement).
pub open spec fn i8_bytes(v: i8) -> Seq<u8> {
    seq![(if v < 0 { v + 0x100 } else { v as int }) as u8]
}

/// The two bytes of an unsigned 16-bit operand, high byte first.
pub open spec fn u16_bytes(v: u16) -> Seq<u8> {
    seq![(v / 0x100) as u8, (v % 0x100) as u8]
}

/// The two bytes of a signed 16-bit operand (two's complement), high byte
/// first.
pub open spec fn i16_bytes(v: i16) -> Seq<u8> {
    u16_bytes((if v < 0 { v + 0x1_0000 } else { v as int }) as u16)
}

/// The four bytes of a signed 32-bit operand (two's complement), high byte
/// first.
pub open spec fn i32_bytes(v: i32) -> Seq<u8> {
    let u: int = if v < 0 { v + 0x1_0000_0000 } else { v as int };
    seq![(u / 0x100_0000) as u8, ((u / 0x1_0000) % 0x100) as u8, ((u / 0x100) % 0x100) as u8, (u % 0x100) as u8]
}

/// The opcode of each instruction in its general form, from the JVM's
/// opcode table; the `wide` forms start with the `wide` opcode.
pub open spec fn jvm_opcode(i: Instr) -> u8 {
    match i {
        Instr::AaLoad => 0x32u8,
        Instr::AaStore => 0x53u8,
        Instr::AConstNull => 0x01u8,
        Instr::ALoad(..) => 0x19u8,
        Instr::ALoad0 => 0x2au8,
        Instr::ALoad1 => 0x2bu8,
        Instr::ALoad2 => 0x2cu8,
        Instr::ALoad3 => 0x2du8,
        Instr::ANewArray(..) => 0xbdu8,
        Instr::AReturn => 0xb0u8,
        Instr::ArrayLength => 0xbeu8,
        Instr::AStore(..) => 0x3au8,
        Instr::AStore0 => 0x4bu8,
        Instr::AStore1 => 0x4cu8,
        Instr::AStore2 => 0x4du8,
        Instr::AStore3 => 0x4eu8,
        Instr::AThrow => 0xbfu8,
        Instr::BaLoad => 0x33u8,
        Instr::BaStore => 0x54u8,
        Instr::BiPush(..) => 0x10u8,
        Instr::CaLoad => 0x34u8,
        Instr::CaStore => 0x55u8,
        Instr::CheckCast(..) => 0xc0u8,
        Instr::D2F => 0x90u8,
        Instr::D2I => 0x8eu8,
        Instr::D2L => 0x8fu8,
        Instr::DAdd => 0x63u8,
        Instr::DaLoad => 0x31u8,
        Instr::DaStore => 0x52u8,
        Instr::DCmpG => 0x98u8,
        Instr::DCmpL => 0x97u8,
        Instr::DConst0 => 0x0eu8,
        Instr::DConst1 => 0x0fu8,
        Instr::DDiv => 0x6fu8,
        Instr::DLoad(..) => 0x18u8,
        Instr::DMul => 0x6bu8,
        Instr::DNeg => 0x77u8,
        Instr::DRem => 0x73u8,
        Instr::DReturn => 0xafu8,
        Instr::DStore(..) => 0x39u8,
        Instr::DSub => 0x67u8,
        Instr::Dup => 0x59u8,
        Instr::DupX1 => 0x5au8,
        Instr::DupX2 => 0x5bu8,
        Instr::Dup2 => 0x5cu8,
        Instr::Dup2X1 => 0x5du8,
        Instr::Dup2X2 => 0x5eu8,
        Instr::F2D => 0x8du8,
        Instr::F2I => 0x8bu8,
        Instr::F2L => 0x8cu8,
        Instr::FAdd => 0x62u8,
        Instr::FaLoad => 0x30u8,
        Instr::FaStore => 0x51u8,
        Instr::FCmpG => 0x96u8,
        Instr::FCmpL => 0x95u8,
        Instr::FConst0 => 0x0bu8,
        Instr::FConst1 => 0x0cu8,
        Instr::FConst2 => 0x0du8,
        Instr::FDiv => 0x6eu8,
        Instr::FLoad(..) => 0x17u8,
        Instr::FMul => 0x6au8,
        Instr::FNeg => 0x76u8,
        Instr::FRem => 0x72u8,
        Instr::FReturn => 0xaeu8,
        Instr::FStore(..) => 0x38u8,
        Instr::FSub => 0x66u8,
        Instr::GetField(..) => 0xb4u8,
        Instr::GetStatic(..) => 0xb2u8,
        Instr::Goto(..) => 0xa7u8,
        Instr::GotoW(..) => 0xc8u8,
        Instr::I2B => 0x91u8,
        Instr::I2C => 0x92u8,
        Instr::I2D => 0x87u8,
        Instr::I2F => 0x86u8,
        Instr::I2L => 0x85u8,
        Instr::I2S => 0x93u8,
        Instr::IAdd => 0x60u8,
        Instr::IaLoad => 0x2eu8,
        Instr::IAnd => 0x7eu8,
        Instr::IaStore => 0x4fu8,
        Instr::IConstM1 => 0x02u8,
        Instr::IConst0 => 0x03u8,
        Instr::IConst1 => 0x04u8,
        Instr::IConst2 => 0x05u8,
        Instr::IConst3 => 0x06u8,
        Instr::IConst4 => 0x07u8,
        Instr::IConst5 => 0x08u8,
        Instr::IDiv => 0x6cu8,
        Instr::IfACmpEq(..) => 0xa5u8,
        Instr::IfACmpNe(..) => 0xa6u8,
        Instr::IfICmpEq(..) => 0x9fu8,
        Instr::IfICmpNe(..) => 0xa0u8,
        Instr::IfICmpLt(..) => 0xa1u8,
        Instr::IfICmpGe(..) => 0xa2u8,
        Instr::IfICmpGt(..) => 0xa3u8,
        Instr::IfICmpLe(..) => 0xa4u8,
        Instr::IfEq(..) => 0x99u8,
        Instr::IfNe(..) => 0x9au8,
        Instr::IfLt(..) => 0x9bu8,
        Instr::IfGe(..) => 0x9cu8,
        Instr::IfGt(..) => 0x9du8,
        Instr::IfLe(..) => 0x9eu8,
        Instr::IfNonNull(..) => 0xc7u8,
        Instr::IfNull(..) => 0xc6u8,
        Instr::IInc(..) => 0x84u8,
        Instr::ILoad(..) => 0x15u8,
        Instr::IMul => 0x68u8,
        Instr::INeg => 0x74u8,
        Instr::InstanceOf(..) => 0xc1u8,
        Instr::InvokeDynamic(..) => 0xbau8,
        Instr::InvokeInterface(..) => 0xb9u8,
        Instr::InvokeSpecial(..) => 0xb7u8,
        Instr::InvokeStatic(..) => 0xb8u8,
        Instr::InvokeVirtual(..) => 0xb6u8,
        Instr::IOr => 0x80u8,
        Instr::IRem => 0x70u8,
        Instr::IReturn => 0xacu8,
        Instr::IShL => 0x78u8,
        Instr::IShR => 0x7au8,
        Instr::IStore(..) => 0x36u8,
        Instr::ISub => 0x64u8,
        Instr::IUShR => 0x7cu8,
        Instr::IXor => 0x82u8,
        Instr::Jsr(..) => 0xa8u8,
        Instr::JsrW(..) => 0xc9u8,
        Instr::L2D => 0x8au8,
        Instr::L2F => 0x89u8,
        Instr::L2I => 0x88u8,
        Instr::LAdd => 0x61u8,
        Instr::LaLoad => 0x2fu8,
        Instr::LAnd => 0x7fu8,
        Instr::LaStore => 0x50u8,
        Instr::LCmp => 0x94u8,
        Instr::LConst0 => 0x09u8,
        Instr::LConst1 => 0x0au8,
        Instr::LdC(..) => 0x12u8,
        Instr::LdCW(..) => 0x13u8,
        Instr::LdC2W(..) => 0x14u8,
        Instr::LDiv => 0x6du8,
        Instr::LLoad(..) => 0x16u8,
        Instr::LMul => 0x69u8,
        Instr::LNeg => 0x75u8,
        Instr::LookupSwitch(..) => 0xabu8,
        Instr::LOr => 0x81u8,
        Instr::LRem => 0x71u8,
        Instr::LReturn => 0xadu8,
        Instr::LShL => 0x79u8,
        Instr::LShR => 0x7bu8,
        Instr::LStore(..) => 0x37u8,
        Instr::LSub => 0x65u8,
        Instr::LUShR => 0x7du8,
        Instr::LXor => 0x83u8,
        Instr::MonitorEnter => 0xc2u8,
        Instr::MonitorExit => 0xc3u8,
        Instr::MultiNewArray(..) => 0xc5u8,
        Instr::New(..) => 0xbbu8,
        Instr::NewArray(..) => 0xbcu8,
        Instr::Nop => 0x00u8,
        Instr::Pop => 0x57u8,
        Instr::Pop2 => 0x58u8,
        Instr::PutField(..) => 0xb5u8,
        Instr::PutStatic(..) => 0xb3u8,
        Instr::Ret(..) => 0xa9u8,
        Instr::Return => 0xb1u8,
        Instr::SaLoad => 0x35u8,
        Instr::SaStore => 0x56u8,
        Instr::SiPush(..) => 0x11u8,
        Instr::Swap => 0x5fu8,
        Instr::TableSwitch(..) => 0xaau8,
        Instr::WideILoad(..) => 0xc4u8,
        Instr::WideFLoad(..) => 0xc4u8,
        Instr::WideALoad(..) => 0xc4u8,
        Instr::WideLLoad(..) => 0xc4u8,
        Instr::WideDLoad(..) => 0xc4u8,
        Instr::WideIStore(..) => 0xc4u8,
        Instr::WideFStore(..) => 0xc4u8,
        Instr::WideAStore(..) => 0xc4u8,
        Instr::WideLStore(..) => 0xc4u8,
        Instr::WideDStore(..) => 0xc4u8,
        Instr::WideRet(..) => 0xc4u8,
        Instr::WideIInc(..) => 0xc4u8,
    }
}

/// The bytes after the opcode of each instruction in its general form;
/// `None` for the switches, whose operands are padded to the alignment of
/// their position.
pub open spec fn jvm_operands(i: Instr) -> Option<Seq<u8>> {
    match i {
        Instr::AaLoad => Some(Seq::empty()),
        Instr::AaStore => Some(Seq::empty()),
        Instr::AConstNull => Some(Seq::empty()),
        Instr::ALoad(a) => Some(seq![a]),
        Instr::ALoad0 => Some(Seq::empty()),
        Instr::ALoad1 => Some(Seq::empty()),
        Instr::ALoad2 => Some(Seq::empty()),
        Instr::ALoad3 => Some(Seq::empty()),
        Instr::ANewArray(a) => Some(u16_bytes(a)),
        Instr::AReturn => Some(Seq::empty()),
        Instr::ArrayLength => Some(Seq::empty()),
        Instr::AStore(a) => Some(seq![a]),
        Instr::AStore0 => Some(Seq::empty()),
        Instr::AStore1 => Some(Seq::empty()),
        Instr::AStore2 => Some(Seq::empty()),
        Instr::AStore3 => Some(Seq::empty()),
        Instr::AThrow => Some(Seq::empty()),
        Instr::BaLoad => Some(Seq::empty()),
        Instr::BaStore => Some(Seq::empty()),
        Instr::BiPush(a) => Some(i8_bytes(a)),
        Instr::CaLoad => Some(Seq::empty()),
        Instr::CaStore => Some(Seq::empty()),
        Instr::CheckCast(a) => Some(u16_bytes(a)),
        Instr::D2F => Some(Seq::empty()),
        Instr::D2I => Some(Seq::empty()),
        Instr::D2L => Some(Seq::empty()),
        Instr::DAdd => Some(Seq::empty()),
        Instr::DaLoad => Some(Seq::empty()),
        Instr::DaStore => Some(Seq::empty()),
        Instr::DCmpG => Some(Seq::empty()),
        Instr::DCmpL => Some(Seq::empty()),
        Instr::DConst0 => Some(Seq::empty()),
        Instr::DConst1 => Some(Seq::empty()),
        Instr::DDiv => Some(Seq::empty()),
        Instr::DLoad(a) => Some(seq![a]),
        Instr::DMul => Some(Seq::empty()),
        Instr::DNeg => Some(Seq::empty()),
        Instr::DRem => Some(Seq::empty()),
        Instr::DReturn => Some(Seq::empty()),
        Instr::DStore(a) => Some(seq![a]),
        Instr::DSub => Some(Seq::empty()),
        Instr::Dup => Some(Seq::empty()),
        Instr::DupX1 => Some(Seq::empty()),
        Instr::DupX2 => Some(Seq::empty()),
        Instr::Dup2 => Some(Seq::empty()),
        Instr::Dup2X1 => Some(Seq::empty()),
        Instr::Dup2X2 => Some(Seq::empty()),
        Instr::F2D => Some(Seq::empty()),
        Instr::F2I => Some(Seq::empty()),
        Instr::F2L => Some(Seq::empty()),
        Instr::FAdd => Some(Seq::empty()),
        Instr::FaLoad => Some(Seq::empty()),
        Instr::FaStore => Some(Seq::empty()),
        Instr::FCmpG => Some(Seq::empty()),
        Instr::FCmpL => Some(Seq::empty()),
        Instr::FConst0 => Some(Seq::empty()),
        Instr::FConst1 => Some(Seq::empty()),
        Instr::FConst2 => Some(Seq::empty()),
        Instr::FDiv => Some(Seq::empty()),
        Instr::FLoad(a) => Some(seq![a]),
        Instr::FMul => Some(Seq::empty()),
        Instr::FNeg => Some(Seq::empty()),
        Instr::FRem => Some(Seq::empty()),
        Instr::FReturn => Some(Seq::empty()),
        Instr::FStore(a) => Some(seq![a]),
        Instr::FSub => Some(Seq::empty()),
        Instr::GetField(a) => Some(u16_bytes(a)),
        Instr::GetStatic(a) => Some(u16_bytes(a)),
        Instr::Goto(a) => Some(i16_bytes(a)),
        Instr::GotoW(a) => Some(i32_bytes(a)),
        Instr::I2B => Some(Seq::empty()),
        Instr::I2C => Some(Seq::empty()),
        Instr::I2D => Some(Seq::empty()),
        Instr::I2F => Some(Seq::empty()),
        Instr::I2L => Some(Seq::empty()),
        Instr::I2S => Some(Seq::empty()),
        Instr::IAdd => Some(Seq::empty()),
        Instr::IaLoad => Some(Seq::empty()),
        Instr::IAnd => Some(Seq::empty()),
        Instr::IaStore => Some(Seq::empty()),
        Instr::IConstM1 => Some(Seq::empty()),
        Instr::IConst0 => Some(Seq::empty()),
        Instr::IConst1 => Some(Seq::empty()),
        Instr::IConst2 => Some(Seq::empty()),
        Instr::IConst3 => Some(Seq::empty()),
        Instr::IConst4 => Some(Seq::empty()),
        Instr::IConst5 => Some(Seq::empty()),
        Instr::IDiv => Some(Seq::empty()),
        Instr::IfACmpEq(a) => Some(i16_bytes(a)),
        Instr::IfACmpNe(a) => Some(i16_bytes(a)),
        Instr::IfICmpEq(a) => Some(i16_bytes(a)),
        Instr::IfICmpNe(a) => Some(i16_bytes(a)),
        Instr::IfICmpLt(a) => Some(i16_bytes(a)),
        Instr::IfICmpGe(a) => Some(i16_bytes(a)),
        Instr::IfICmpGt(a) => Some(i16_bytes(a)),
        Instr::IfICmpLe(a) => Some(i16_bytes(a)),
        Instr::IfEq(a) => Some(i16_bytes(a)),
        Instr::IfNe(a) => Some(i16_bytes(a)),
        Instr::IfLt(a) => Some(i16_bytes(a)),
        Instr::IfGe(a) => Some(i16_bytes(a)),
        Instr::IfGt(a) => Some(i16_bytes(a)),
        Instr::IfLe(a) => Some(i16_bytes(a)),
        Instr::IfNonNull(a) => Some(i16_bytes(a)),
        Instr::IfNull(a) => Some(i16_bytes(a)),
        Instr::IInc(a, b) => Some(seq![a] + i8_bytes(b)),
        Instr::ILoad(a) => Some(seq![a]),
        Instr::IMul => Some(Seq::empty()),
        Instr::INeg => Some(Seq::empty()),
        Instr::InstanceOf(a) => Some(u16_bytes(a)),
        Instr::InvokeDynamic(a, b) => Some(u16_bytes(a) + u16_bytes(b)),
        Instr::InvokeInterface(a, b, c) => Some(u16_bytes(a) + seq![b] + seq![c]),
        Instr::InvokeSpecial(a) => Some(u16_bytes(a)),
        Instr::InvokeStatic(a) => Some(u16_bytes(a)),
        Instr::InvokeVirtual(a) => Some(u16_bytes(a)),
        Instr::IOr => Some(Seq::empty()),
        Instr::IRem => Some(Seq::empty()),
        Instr::IReturn => Some(Seq::empty()),
        Instr::IShL => Some(Seq::empty()),
        Instr::IShR => Some(Seq::empty()),
        Instr::IStore(a) => Some(seq![a]),
        Instr::ISub => Some(Seq::empty()),
        Instr::IUShR => Some(Seq::empty()),
        Instr::IXor => Some(Seq::empty()),
        Instr::Jsr(a) => Some(i16_bytes(a)),
        Instr::JsrW(a) => Some(i32_bytes(a)),
        Instr::L2D => Some(Seq::empty()),
        Instr::L2F => Some(Seq::empty()),
        Instr::L2I => Some(Seq::empty()),
        Instr::LAdd => Some(Seq::empty()),
        Instr::LaLoad => Some(Seq::empty()),
        Instr::LAnd => Some(Seq::empty()),
        Instr::LaStore => Some(Seq::empty()),
        Instr::LCmp => Some(Seq::empty()),
        Instr::LConst0 => Some(Seq::empty()),
        Instr::LConst1 => Some(Seq::empty()),
        Instr::LdC(a) => Some(seq![a]),
        Instr::LdCW(a) => Some(u16_bytes(a)),
        Instr::LdC2W(a) => Some(u16_bytes(a)),
        Instr::LDiv => Some(Seq::empty()),
        Instr::LLoad(a) => Some(seq![a]),
        Instr::LMul => Some(Seq::empty()),
        Instr::LNeg => Some(Seq::empty()),
        Instr::LookupSwitch(..) => None,
        Instr::LOr => Some(Seq::empty()),
        Instr::LRem => Some(Seq::empty()),
        Instr::LReturn => Some(Seq::empty()),
        Instr::LShL => Some(Seq::empty()),
        Instr::LShR => Some(Seq::empty()),
        Instr::LStore(a) => Some(seq![a]),
        Instr::LSub => Some(Seq::empty()),
        Instr::LUShR => Some(Seq::empty()),
        Instr::LXor => Some(Seq::empty()),
        Instr::MonitorEnter => Some(Seq::empty()),
        Instr::MonitorExit => Some(Seq::empty()),
        Instr::MultiNewArray(a, b) => Some(u16_bytes(a) + seq![b]),
        Instr::New(a) => Some(u16_bytes(a)),
        Instr::NewArray(a) => Some(seq![a]),
        Instr::Nop => Some(Seq::empty()),
        Instr::Pop => Some(Seq::empty()),
        Instr::Pop2 => Some(Seq::empty()),
        Instr::PutField(a) => Some(u16_bytes(a)),
        Instr::PutStatic(a) => Some(u16_bytes(a)),
        Instr::Ret(a) => Some(seq![a]),
        Instr::Return => Some(Seq::empty()),
        Instr::SaLoad => Some(Seq::empty()),
        Instr::SaStore => Some(Seq::empty()),
        Instr::SiPush(a) => Some(i16_bytes(a)),
        Instr::Swap => Some(Seq::empty()),
        Instr::TableSwitch(..) => None,
        Instr::WideILoad(a) => Some(seq![0x15u8] + u16_bytes(a)),
        Instr::WideFLoad(a) => Some(seq![0x17u8] + u16_bytes(a)),
        Instr::WideALoad(a) => Some(seq![0x19u8] + u16_bytes(a)),
        Instr::WideLLoad(a) => Some(seq![0x16u8] + u16_bytes(a)),
        Instr::WideDLoad(a) => Some(seq![0x18u8] + u16_bytes(a)),
        Instr::WideIStore(a) => Some(seq![0x36u8] + u16_bytes(a)),
        Instr::WideFStore(a) => Some(seq![0x38u8] + u16_bytes(a)),
        Instr::WideAStore(a) => Some(seq![0x3au8] + u16_bytes(a)),
        Instr::WideLStore(a) => Some(seq![0x37u8] + u16_bytes(a)),
        Instr::WideDStore(a) => Some(seq![0x39u8] + u16_bytes(a)),
        Instr::WideRet(a) => Some(seq![0xa9u8] + u16_bytes(a)),
        Instr::WideIInc(a, b) => Some(seq![0x84u8] + u16_bytes(a) + i16_bytes(b)),
    }
}

/// The one-byte short form of an instruction that loads or stores one of
/// the locals 0 to 3 (`iload_0` and the like).
pub open spec fn jvm_short_form(i: Instr) -> Option<u8> {
    match i {
        Instr::ILoad(n) => if n < 4 { Some((0x1a + n) as u8) } else { None },
        Instr::LLoad(n) => if n < 4 { Some((0x1e + n) as u8) } else { None },
        Instr::FLoad(n) => if n < 4 { Some((0x22 + n) as u8) } else { None },
        Instr::DLoad(n) => if n < 4 { Some((0x26 + n) as u8) } else { None },
        Instr::IStore(n) => if n < 4 { Some((0x3b + n) as u8) } else { None },
        Instr::LStore(n) => if n < 4 { Some((0x3f + n) as u8) } else { None },
        Instr::FStore(n) => if n < 4 { Some((0x43 + n) as u8) } else { None },
        Instr::DStore(n) => if n < 4 { Some((0x47 + n) as u8) } else { None },
        _ => None,
    }
}

/// Whether `b` is a JVM encoding of `i`: its general form, or its short
/// form where it has one.
pub open spec fn jvm_encodes(i: Instr, b: Seq<u8>) -> bool {
    ||| (b.len() >= 1 && b[0] == jvm_opcode(i) && jvm_operands(i) == Some(b.subrange(1, b.len() as int)))
    ||| (b.len() == 1 && jvm_short_form(i) == Some(b[0]))
}

/// Every one-byte instruction the decoder knows is the JVM's instruction
/// for that opcode, apart from `0xac`.
proof fn lemma_no_operand_table(op: u8)
    requires
        no_operand_instr(op) is Some,
        op != 0xacu8,
    ensures
        ({
            let i = no_operand_instr(op)->0;
            (jvm_opcode(i) == op && jvm_operands(i) == Some(Seq::<u8>::empty())) || jvm_short_form(i) == Some(op)
        }),
{
}

/// Every instruction with a byte operand is the JVM's instruction for its
/// opcode, with that byte as its operand.
proof fn lemma_u8_table(op: u8, v: u8)
    requires
        u8_operand_instr(op, v) is Some,
    ensures
        jvm_opcode(u8_operand_instr(op, v)->0) == op,
        jvm_operands(u8_operand_instr(op, v)->0) == Some(seq![v]),
{
}

/// Every instruction with an unsigned 16-bit operand is the JVM's
/// instruction for its opcode, with that operand.
proof fn lemma_u16_table(op: u8, v: u16)
    requires
        u16_operand_instr(op, v) is Some,
    ensures
        jvm_opcode(u16_operand_instr(op, v)->0) == op,
        jvm_operands(u16_operand_instr(op, v)->0) == Some(u16_bytes(v)),
{
}

/// Every instruction with a signed 16-bit operand is the JVM's instruction
/// for its opcode, with that operand.
proof fn lemma_i16_table(op: u8, v: i16)
    requires
        i16_operand_instr(op, v) is Some,
    ensures
        jvm_opcode(i16_operand_instr(op, v)->0) == op,
        jvm_operands(i16_operand_instr(op, v)->0) == Some(i16_bytes(v)),
{
}

/// Every instruction with a signed 32-bit operand is the JVM's instruction
/// for its opcode, with that operand.
proof fn lemma_i32_table(op: u8, v: i32)
    requires
        i32_operand_instr(op, v) is Some,
    ensures
        jvm_opcode(i32_operand_instr(op, v)->0) == op,
        jvm_operands(i32_operand_instr(op, v)->0) == Some(i32_bytes(v)),
{
}

/// Every `wide` instruction with one 16-bit operand is the JVM's
/// instruction for the opcode after `wide`.
proof fn lemma_wide_table(op: u8, v: u16)
    requires
        wide_u16_instr(op, v) is Some,
    ensures
        jvm_opcode(wide_u16_instr(op, v)->0) == 0xc4u8,
        jvm_operands(wide_u16_instr(op, v)->0) == Some(seq![op] + u16_bytes(v)),
{
}

/// Two bytes read as an unsigned big-endian value are that value's bytes.
pub proof fn lemma_u16_read(s: Seq<u8>, q: int)
    requires
        0 <= q,
        q + 2 <= s.len(),
    ensures
        u16_bytes(be16(s, q) as u16) == s.subrange(q, q + 2),
{
    let a = s[q];
    let b = s[q + 1];
    let v = be16(s, q);
    assert(v == a as int * 256 + b as int);
    assert(v / 256 == a as int && v % 256 == b as int) by (nonlinear_arith)
        requires
            v == a as int * 256 + b as int,
            0 <= a < 256,
            0 <= b < 256,
    ;
    assert(u16_bytes(v as u16) =~= s.subrange(q, q + 2));
}

/// Two bytes read as a signed big-endian value are that value's bytes.
proof fn lemma_i16_read(s: Seq<u8>, q: int)
    requires
        0 <= q,
        q + 2 <= s.len(),
    ensures
        i16_bytes(signed(be16(s, q), 0x1_0000) as i16) == s.subrange(q, q + 2),
{
    lemma_u16_read(s, q);
    let v = be16(s, q);
    assert(0 <= v < 0x1_0000) by (nonlinear_arith)
        requires
            v == s[q] as int * 256 + s[q + 1] as int,
            0 <= s[q] < 256,
            0 <= s[q + 1] < 256,
    ;
}

/// A byte read as a signed value is that value's byte.
proof fn lemma_i8_read(s: Seq<u8>, q: int)
    requires
        0 <= q < s.len(),
    ensures
        i8_bytes(signed(s[q] as int, 0x100) as i8) == seq![s[q]],
{
    assert(i8_bytes(signed(s[q] as int, 0x100) as i8) =~= seq![s[q]]);
}

/// Four bytes read as a signed big-endian value are that value's bytes.
pub proof fn lemma_i32_read(s: Seq<u8>, q: int)
    requires
        0 <= q,
        q + 4 <= s.len(),
    ensures
        i32_bytes(signed(be32(s, q), 0x1_0000_0000) as i32) == s.subrange(q, q + 4),
{
    let a = s[q] as int;
    let b = s[q + 1] as int;
    let c = s[q + 2] as int;
    let d = s[q + 3] as int;
    let u = be32(s, q);
    assert(u == ((a * 256 + b) * 65536) + (c * 256 + d));
    assert(u / 0x100_0000 == a && (u / 0x1_0000) % 0x100 == b && (u / 0x100) % 0x100 == c
        && u % 0x100 == d && 0 <= u < 0x1_0000_0000) by (nonlinear_arith)
        requires
            u == ((a * 256 + b) * 65536) + (c * 256 + d),
            0 <= a < 256,
            0 <= b < 256,
            0 <= c < 256,
            0 <= d < 256,
    ;
    assert(i32_bytes(signed(u, 0x1_0000_0000) as i32) =~= s.subrange(q, q + 4));
}

/// The decoder reads each instruction as the JVM encodes it: wherever
/// decoding at `p` gives an instruction ending at `q`, the bytes from `p` to
/// `q` are a JVM encoding of that instruction, its opcode and operands (or
/// its short form). The one opcode left out is `0xac`, which the decoder
/// reads as `irem`.
pub proof fn law_decoding_follows_jvm_encoding(s: Seq<u8>, p: int)
    requires
        0 <= p < s.len(),
        s[p] != 0xacu8,
    ensures
        spec_decode_at(s, p) matches Ok((i, q)) ==> p < q <= s.len() && jvm_encodes(i, s.subrange(p, q)),
{
    let op = s[p];
    let q = p + 1;
    if let Ok((i, r)) = spec_decode_at(s, p) {
        let b = s.subrange(p, r);
        if no_operand_instr(op) is Some {
            lemma_no_operand_table(op);
            assert(b.subrange(1, b.len() as int) =~= Seq::<u8>::empty());
        } else if u8_operand_instr(op, 0) is Some {
            lemma_u8_table(op, s[q]);
            assert(b.subrange(1, b.len() as int) =~= seq![s[q]]);
        } else if op == 0x10u8 {
            lemma_i8_read(s, q);
            assert(b.subrange(1, b.len() as int) =~= seq![s[q]]);
        } else if u16_operand_instr(op, 0) is Some {
            lemma_u16_read(s, q);
            lemma_u16_table(op, be16(s, q) as u16);
            assert(b.subrange(1, b.len() as int) =~= s.subrange(q, q + 2));
        } else if i16_operand_instr(op, 0) is Some {
            lemma_i16_read(s, q);
            lemma_i16_table(op, signed(be16(s, q), 0x1_0000) as i16);
            assert(b.subrange(1, b.len() as int) =~= s.subrange(q, q + 2));
        } else if i32_operand_instr(op, 0) is Some {
            lemma_i32_read(s, q);
            lemma_i32_table(op, signed(be32(s, q), 0x1_0000_0000) as i32);
            assert(b.subrange(1, b.len() as int) =~= s.subrange(q, q + 4));
        } else if op == 0x84u8 {
            lemma_i8_read(s, q + 1);
            assert(b.subrange(1, b.len() as int) =~= seq![s[q]] + seq![s[q + 1]]);
        } else if op == 0xbau8 {
            lemma_u16_read(s, q);
            lemma_u16_read(s, q + 2);
            assert(b.subrange(1, b.len() as int) =~= s.subrange(q, q + 2) + s.subrange(q + 2, q + 4));
        } else if op == 0xb9u8 {
            lemma_u16_read(s, q);
            assert(b.subrange(1, b.len() as int) =~= s.subrange(q, q + 2) + seq![s[q + 2]] + seq![s[q + 3]]);
        } else {
            assert(op == 0xc4u8);
            let sub = s[q];
            if wide_u16_instr(sub, 0) is Some {
                lemma_u16_read(s, q + 1);
                lemma_wide_table(sub, be16(s, q + 1) as u16);
                assert(b.subrange(1, b.len() as int) =~= seq![sub] + s.subrange(q + 1, q + 3));
            } else {
                lemma_u16_read(s, q + 1);
                lemma_i16_read(s, q + 3);
                assert(b.subrange(1, b.len() as int) =~= seq![0x84u8] + s.subrange(q + 1, q + 3) + s.subrange(q + 3, q + 5));
            }
        }
    }
}

} // verus!
