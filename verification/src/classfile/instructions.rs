//! JVM instructions and their decoding from a method's code bytes.
use vstd::prelude::*;
use crate::classfile::error::ClassFileError;
use crate::classfile::buffer::{
    agrees, read_u8, read_i8, read_u16, read_i16, read_i32, spec_u8, spec_i8, spec_u16, spec_i16,
    spec_i32,
};

verus! {

/// The element type of an array of a primitive type.
#[derive(Clone, Copy, Debug, PartialEq, Eq, Structural)]
pub enum ArrayType {
    Boolean,
    Char,
    Float,
    Double,
    Byte,
    Short,
    Int,
    Long,
}

/// A decoded JVM instruction with its immediate operands.
#[derive(Clone, Debug, PartialEq, Eq)]
pub enum Instr {
    AaLoad,
    AaStore,
    AConstNull,
    ALoad(u8),
    ALoad0,
    ALoad1,
    ALoad2,
    ALoad3,
    ANewArray(u16),
    AReturn,
    ArrayLength,
    AStore(u8),
    AStore0,
    AStore1,
    AStore2,
    AStore3,
    AThrow,
    BaLoad,
    BaStore,
    BiPush(i8),
    CaLoad,
    CaStore,
    CheckCast(u16),
    D2F,
    D2I,
    D2L,
    DAdd,
    DaLoad,
    DaStore,
    DCmpG,
    DCmpL,
    DConst0,
    DConst1,
    DDiv,
    DLoad(u8),
    DMul,
    DNeg,
    DRem,
    DReturn,
    DStore(u8),
    DSub,
    Dup,
    DupX1,
    DupX2,
    Dup2,
    Dup2X1,
    Dup2X2,
    F2D,
    F2I,
    F2L,
    FAdd,
    FaLoad,
    FaStore,
    FCmpG,
    FCmpL,
    FConst0,
    FConst1,
    FConst2,
    FDiv,
    FLoad(u8),
    FMul,
    FNeg,
    FRem,
    FReturn,
    FStore(u8),
    FSub,
    GetField(u16),
    GetStatic(u16),
    Goto(i16),
    GotoW(i32),
    I2B,
    I2C,
    I2D,
    I2F,
    I2L,
    I2S,
    IAdd,
    IaLoad,
    IAnd,
    IaStore,
    IConstM1,
    IConst0,
    IConst1,
    IConst2,
    IConst3,
    IConst4,
    IConst5,
    IDiv,
    IfACmpEq(i16),
    IfACmpNe(i16),
    IfICmpEq(i16),
    IfICmpNe(i16),
    IfICmpLt(i16),
    IfICmpGe(i16),
    IfICmpGt(i16),
    IfICmpLe(i16),
    IfEq(i16),
    IfNe(i16),
    IfLt(i16),
    IfGe(i16),
    IfGt(i16),
    IfLe(i16),
    IfNonNull(i16),
    IfNull(i16),
    IInc(u8, i8),
    ILoad(u8),
    IMul,
    INeg,
    InstanceOf(u16),
    InvokeDynamic(u16, u16),
    InvokeInterface(u16, u8, u8),
    InvokeSpecial(u16),
    InvokeStatic(u16),
    InvokeVirtual(u16),
    IOr,
    IRem,
    IReturn,
    IShL,
    IShR,
    IStore(u8),
    ISub,
    IUShR,
    IXor,
    Jsr(i16),
    JsrW(i32),
    L2D,
    L2F,
    L2I,
    LAdd,
    LaLoad,
    LAnd,
    LaStore,
    LCmp,
    LConst0,
    LConst1,
    LdC(u8),
    LdCW(u16),
    LdC2W(u16),
    LDiv,
    LLoad(u8),
    LMul,
    LNeg,
    LookupSwitch(i32, Vec<(i32, i32)>),
    LOr,
    LRem,
    LReturn,
    LShL,
    LShR,
    LStore(u8),
    LSub,
    LUShR,
    LXor,
    MonitorEnter,
    MonitorExit,
    MultiNewArray(u16, u8),
    New(u16),
    NewArray(u8),
    Nop,
    Pop,
    Pop2,
    PutField(u16),
    PutStatic(u16),
    Ret(u8),
    Return,
    SaLoad,
    SaStore,
    SiPush(i16),
    Swap,
    TableSwitch(i32, i32, i32, Vec<i32>),
    WideILoad(u16),
    WideFLoad(u16),
    WideALoad(u16),
    WideLLoad(u16),
    WideDLoad(u16),
    WideIStore(u16),
    WideFStore(u16),
    WideAStore(u16),
    WideLStore(u16),
    WideDStore(u16),
    WideRet(u16),
    WideIInc(u16, i16),
}

impl Instr {
    /// Whether executing the instruction may raise a runtime exception (or
    /// leave the method).
    pub fn may_throw_runtime_exception(&self) -> (r: bool)
        ensures
            r == spec_may_throw(*self),
    {
        match self {
            Instr::AaLoad => true,
            Instr::AaStore => true,
            Instr::ANewArray(_) => true,
            Instr::AReturn => true,
            Instr::ArrayLength => true,
            Instr::AThrow => true,
            Instr::BaLoad => true,
            Instr::BaStore => true,
            Instr::CaLoad => true,
            Instr::CaStore => true,
            Instr::CheckCast(_) => true,
            Instr::DaLoad => true,
            Instr::DaStore => true,
            Instr::DReturn => true,
            Instr::FaLoad => true,
            Instr::FaStore => true,
            Instr::FReturn => true,
            Instr::GetField(_) => true,
            Instr::GetStatic(_) => true,
            Instr::IaLoad => true,
            Instr::IaStore => true,
            Instr::IDiv => true,
            Instr::InvokeDynamic(_, _) => true,
            Instr::InvokeInterface(_, _, _) => true,
            Instr::InvokeSpecial(_) => true,
            Instr::InvokeStatic(_) => true,
            Instr::InvokeVirtual(_) => true,
            Instr::IRem => true,
            Instr::IReturn => true,
            Instr::LaLoad => true,
            Instr::LaStore => true,
            Instr::LDiv => true,
            Instr::LRem => true,
            Instr::LReturn => true,
            Instr::MonitorEnter => true,
            Instr::MonitorExit => true,
            Instr::MultiNewArray(_, _) => true,
            Instr::New(_) => true,
            Instr::NewArray(_) => true,
            Instr::PutField(_) => true,
            Instr::PutStatic(_) => true,
            Instr::Return => true,
            Instr::SaLoad => true,
            Instr::SaStore => true,
            _ => false,
        }
    }
}

/// The instructions that may raise a runtime exception or leave the method.
pub open spec fn spec_may_throw(i: Instr) -> bool {
    match i {
        Instr::AaLoad => true,
        Instr::AaStore => true,
        Instr::ANewArray(_) => true,
        Instr::AReturn => true,
        Instr::ArrayLength => true,
        Instr::AThrow => true,
        Instr::BaLoad => true,
        Instr::BaStore => true,
        Instr::CaLoad => true,
        Instr::CaStore => true,
        Instr::CheckCast(_) => true,
        Instr::DaLoad => true,
        Instr::DaStore => true,
        Instr::DReturn => true,
        Instr::FaLoad => true,
        Instr::FaStore => true,
        Instr::FReturn => true,
        Instr::GetField(_) => true,
        Instr::GetStatic(_) => true,
        Instr::IaLoad => true,
        Instr::IaStore => true,
        Instr::IDiv => true,
        Instr::InvokeDynamic(_, _) => true,
        Instr::InvokeInterface(_, _, _) => true,
        Instr::InvokeSpecial(_) => true,
        Instr::InvokeStatic(_) => true,
        Instr::InvokeVirtual(_) => true,
        Instr::IRem => true,
        Instr::IReturn => true,
        Instr::LaLoad => true,
        Instr::LaStore => true,
        Instr::LDiv => true,
        Instr::LRem => true,
        Instr::LReturn => true,
        Instr::MonitorEnter => true,
        Instr::MonitorExit => true,
        Instr::MultiNewArray(_, _) => true,
        Instr::New(_) => true,
        Instr::NewArray(_) => true,
        Instr::PutField(_) => true,
        Instr::PutStatic(_) => true,
        Instr::Return => true,
        Instr::SaLoad => true,
        Instr::SaStore => true,
        _ => false,
    }
}

/// The instruction that opcode `op` stands for, in this operand class.
pub open spec fn no_operand_instr(op: u8) -> Option<Instr> {
    match op {
        0x32u8 => Some(Instr::AaLoad),
        0x53u8 => Some(Instr::AaStore),
        0x01u8 => Some(Instr::AConstNull),
        0x2au8 => Some(Instr::ALoad0),
        0x2bu8 => Some(Instr::ALoad1),
        0x2cu8 => Some(Instr::ALoad2),
        0x2du8 => Some(Instr::ALoad3),
        0xb0u8 => Some(Instr::AReturn),
        0xbeu8 => Some(Instr::ArrayLength),
        0x4bu8 => Some(Instr::AStore0),
        0x4cu8 => Some(Instr::AStore1),
        0x4du8 => Some(Instr::AStore2),
        0x4eu8 => Some(Instr::AStore3),
        0xbfu8 => Some(Instr::AThrow),
        0x33u8 => Some(Instr::BaLoad),
        0x54u8 => Some(Instr::BaStore),
        0x34u8 => Some(Instr::CaLoad),
        0x55u8 => Some(Instr::CaStore),
        0x90u8 => Some(Instr::D2F),
        0x8eu8 => Some(Instr::D2I),
        0x8fu8 => Some(Instr::D2L),
        0x63u8 => Some(Instr::DAdd),
        0x31u8 => Some(Instr::DaLoad),
        0x52u8 => Some(Instr::DaStore),
        0x98u8 => Some(Instr::DCmpG),
        0x97u8 => Some(Instr::DCmpL),
        0x0eu8 => Some(Instr::DConst0),
        0x0fu8 => Some(Instr::DConst1),
        0x6fu8 => Some(Instr::DDiv),
        0x26u8 => Some(Instr::DLoad(0)),
        0x27u8 => Some(Instr::DLoad(1)),
        0x28u8 => Some(Instr::DLoad(2)),
        0x29u8 => Some(Instr::DLoad(3)),
        0x6bu8 => Some(Instr::DMul),
        0x77u8 => Some(Instr::DNeg),
        0x73u8 => Some(Instr::DRem),
        0xafu8 => Some(Instr::DReturn),
        0x47u8 => Some(Instr::DStore(0)),
        0x48u8 => Some(Instr::DStore(1)),
        0x49u8 => Some(Instr::DStore(2)),
        0x4au8 => Some(Instr::DStore(3)),
        0x67u8 => Some(Instr::DSub),
        0x59u8 => Some(Instr::Dup),
        0x5au8 => Some(Instr::DupX1),
        0x5bu8 => Some(Instr::DupX2),
        0x5cu8 => Some(Instr::Dup2),
        0x5du8 => Some(Instr::Dup2X1),
        0x5eu8 => Some(Instr::Dup2X2),
        0x8du8 => Some(Instr::F2D),
        0x8bu8 => Some(Instr::F2I),
        0x8cu8 => Some(Instr::F2L),
        0x62u8 => Some(Instr::FAdd),
        0x30u8 => Some(Instr::FaLoad),
        0x51u8 => Some(Instr::FaStore),
        0x96u8 => Some(Instr::FCmpG),
        0x95u8 => Some(Instr::FCmpL),
        0x0bu8 => Some(Instr::FConst0),
        0x0cu8 => Some(Instr::FConst1),
        0x0du8 => Some(Instr::FConst2),
        0x6eu8 => Some(Instr::FDiv),
        0x22u8 => Some(Instr::FLoad(0)),
        0x23u8 => Some(Instr::FLoad(1)),
        0x24u8 => Some(Instr::FLoad(2)),
        0x25u8 => Some(Instr::FLoad(3)),
        0x6au8 => Some(Instr::FMul),
        0x76u8 => Some(Instr::FNeg),
        0x72u8 => Some(Instr::FRem),
        0xaeu8 => Some(Instr::FReturn),
        0x43u8 => Some(Instr::FStore(0)),
        0x44u8 => Some(Instr::FStore(1)),
        0x45u8 => Some(Instr::FStore(2)),
        0x46u8 => Some(Instr::FStore(3)),
        0x66u8 => Some(Instr::FSub),
        0x91u8 => Some(Instr::I2B),
        0x92u8 => Some(Instr::I2C),
        0x87u8 => Some(Instr::I2D),
        0x86u8 => Some(Instr::I2F),
        0x85u8 => Some(Instr::I2L),
        0x93u8 => Some(Instr::I2S),
        0x60u8 => Some(Instr::IAdd),
        0x2eu8 => Some(Instr::IaLoad),
        0x7eu8 => Some(Instr::IAnd),
        0x4fu8 => Some(Instr::IaStore),
        0x02u8 => Some(Instr::IConstM1),
        0x03u8 => Some(Instr::IConst0),
        0x04u8 => Some(Instr::IConst1),
        0x05u8 => Some(Instr::IConst2),
        0x06u8 => Some(Instr::IConst3),
        0x07u8 => Some(Instr::IConst4),
        0x08u8 => Some(Instr::IConst5),
        0x6cu8 => Some(Instr::IDiv),
        0x1au8 => Some(Instr::ILoad(0)),
        0x1bu8 => Some(Instr::ILoad(1)),
        0x1cu8 => Some(Instr::ILoad(2)),
        0x1du8 => Some(Instr::ILoad(3)),
        0x68u8 => Some(Instr::IMul),
        0x74u8 => Some(Instr::INeg),
        0x80u8 => Some(Instr::IOr),
        0x70u8 => Some(Instr::IRem),
        0xacu8 => Some(Instr::IRem),
        0x78u8 => Some(Instr::IShL),
        0x7au8 => Some(Instr::IShR),
        0x3bu8 => Some(Instr::IStore(0)),
        0x3cu8 => Some(Instr::IStore(1)),
        0x3du8 => Some(Instr::IStore(2)),
        0x3eu8 => Some(Instr::IStore(3)),
        0x64u8 => Some(Instr::ISub),
        0x7cu8 => Some(Instr::IUShR),
        0x82u8 => Some(Instr::IXor),
        0x8au8 => Some(Instr::L2D),
        0x89u8 => Some(Instr::L2F),
        0x88u8 => Some(Instr::L2I),
        0x61u8 => Some(Instr::LAdd),
        0x2fu8 => Some(Instr::LaLoad),
        0x7fu8 => Some(Instr::LAnd),
        0x50u8 => Some(Instr::LaStore),
        0x94u8 => Some(Instr::LCmp),
        0x09u8 => Some(Instr::LConst0),
        0x0au8 => Some(Instr::LConst1),
        0x6du8 => Some(Instr::LDiv),
        0x1eu8 => Some(Instr::LLoad(0)),
        0x1fu8 => Some(Instr::LLoad(1)),
        0x20u8 => Some(Instr::LLoad(2)),
        0x21u8 => Some(Instr::LLoad(3)),
        0x69u8 => Some(Instr::LMul),
        0x75u8 => Some(Instr::LNeg),
        0x81u8 => Some(Instr::LOr),
        0x71u8 => Some(Instr::LRem),
        0xadu8 => Some(Instr::LReturn),
        0x79u8 => Some(Instr::LShL),
        0x7bu8 => Some(Instr::LShR),
        0x3fu8 => Some(Instr::LStore(0)),
        0x40u8 => Some(Instr::LStore(1)),
        0x41u8 => Some(Instr::LStore(2)),
        0x42u8 => Some(Instr::LStore(3)),
        0x65u8 => Some(Instr::LSub),
        0x7du8 => Some(Instr::LUShR),
        0x83u8 => Some(Instr::LXor),
        0xc2u8 => Some(Instr::MonitorEnter),
        0xc3u8 => Some(Instr::MonitorExit),
        0x00u8 => Some(Instr::Nop),
        0x57u8 => Some(Instr::Pop),
        0x58u8 => Some(Instr::Pop2),
        0xb1u8 => Some(Instr::Return),
        0x35u8 => Some(Instr::SaLoad),
        0x56u8 => Some(Instr::SaStore),
        0x5fu8 => Some(Instr::Swap),
        _ => None,
    }
}

fn no_operand_instr_exec(op: u8) -> (r: Option<Instr>)
    ensures
        r == no_operand_instr(op),
{
    match op {
        0x32 => Some(Instr::AaLoad),
        0x53 => Some(Instr::AaStore),
        0x01 => Some(Instr::AConstNull),
        0x2a => Some(Instr::ALoad0),
        0x2b => Some(Instr::ALoad1),
        0x2c => Some(Instr::ALoad2),
        0x2d => Some(Instr::ALoad3),
        0xb0 => Some(Instr::AReturn),
        0xbe => Some(Instr::ArrayLength),
        0x4b => Some(Instr::AStore0),
        0x4c => Some(Instr::AStore1),
        0x4d => Some(Instr::AStore2),
        0x4e => Some(Instr::AStore3),
        0xbf => Some(Instr::AThrow),
        0x33 => Some(Instr::BaLoad),
        0x54 => Some(Instr::BaStore),
        0x34 => Some(Instr::CaLoad),
        0x55 => Some(Instr::CaStore),
        0x90 => Some(Instr::D2F),
        0x8e => Some(Instr::D2I),
        0x8f => Some(Instr::D2L),
        0x63 => Some(Instr::DAdd),
        0x31 => Some(Instr::DaLoad),
        0x52 => Some(Instr::DaStore),
        0x98 => Some(Instr::DCmpG),
        0x97 => Some(Instr::DCmpL),
        0x0e => Some(Instr::DConst0),
        0x0f => Some(Instr::DConst1),
        0x6f => Some(Instr::DDiv),
        0x26 => Some(Instr::DLoad(0)),
        0x27 => Some(Instr::DLoad(1)),
        0x28 => Some(Instr::DLoad(2)),
        0x29 => Some(Instr::DLoad(3)),
        0x6b => Some(Instr::DMul),
        0x77 => Some(Instr::DNeg),
        0x73 => Some(Instr::DRem),
        0xaf => Some(Instr::DReturn),
        0x47 => Some(Instr::DStore(0)),
        0x48 => Some(Instr::DStore(1)),
        0x49 => Some(Instr::DStore(2)),
        0x4a => Some(Instr::DStore(3)),
        0x67 => Some(Instr::DSub),
        0x59 => Some(Instr::Dup),
        0x5a => Some(Instr::DupX1),
        0x5b => Some(Instr::DupX2),
        0x5c => Some(Instr::Dup2),
        0x5d => Some(Instr::Dup2X1),
        0x5e => Some(Instr::Dup2X2),
        0x8d => Some(Instr::F2D),
        0x8b => Some(Instr::F2I),
        0x8c => Some(Instr::F2L),
        0x62 => Some(Instr::FAdd),
        0x30 => Some(Instr::FaLoad),
        0x51 => Some(Instr::FaStore),
        0x96 => Some(Instr::FCmpG),
        0x95 => Some(Instr::FCmpL),
        0x0b => Some(Instr::FConst0),
        0x0c => Some(Instr::FConst1),
        0x0d => Some(Instr::FConst2),
        0x6e => Some(Instr::FDiv),
        0x22 => Some(Instr::FLoad(0)),
        0x23 => Some(Instr::FLoad(1)),
        0x24 => Some(Instr::FLoad(2)),
        0x25 => Some(Instr::FLoad(3)),
        0x6a => Some(Instr::FMul),
        0x76 => Some(Instr::FNeg),
        0x72 => Some(Instr::FRem),
        0xae => Some(Instr::FReturn),
        0x43 => Some(Instr::FStore(0)),
        0x44 => Some(Instr::FStore(1)),
        0x45 => Some(Instr::FStore(2)),
        0x46 => Some(Instr::FStore(3)),
        0x66 => Some(Instr::FSub),
        0x91 => Some(Instr::I2B),
        0x92 => Some(Instr::I2C),
        0x87 => Some(Instr::I2D),
        0x86 => Some(Instr::I2F),
        0x85 => Some(Instr::I2L),
        0x93 => Some(Instr::I2S),
        0x60 => Some(Instr::IAdd),
        0x2e => Some(Instr::IaLoad),
        0x7e => Some(Instr::IAnd),
        0x4f => Some(Instr::IaStore),
        0x02 => Some(Instr::IConstM1),
        0x03 => Some(Instr::IConst0),
        0x04 => Some(Instr::IConst1),
        0x05 => Some(Instr::IConst2),
        0x06 => Some(Instr::IConst3),
        0x07 => Some(Instr::IConst4),
        0x08 => Some(Instr::IConst5),
        0x6c => Some(Instr::IDiv),
        0x1a => Some(Instr::ILoad(0)),
        0x1b => Some(Instr::ILoad(1)),
        0x1c => Some(Instr::ILoad(2)),
        0x1d => Some(Instr::ILoad(3)),
        0x68 => Some(Instr::IMul),
        0x74 => Some(Instr::INeg),
        0x80 => Some(Instr::IOr),
        0x70 => Some(Instr::IRem),
        0xac => Some(Instr::IRem),
        0x78 => Some(Instr::IShL),
        0x7a => Some(Instr::IShR),
        0x3b => Some(Instr::IStore(0)),
        0x3c => Some(Instr::IStore(1)),
        0x3d => Some(Instr::IStore(2)),
        0x3e => Some(Instr::IStore(3)),
        0x64 => Some(Instr::ISub),
        0x7c => Some(Instr::IUShR),
        0x82 => Some(Instr::IXor),
        0x8a => Some(Instr::L2D),
        0x89 => Some(Instr::L2F),
        0x88 => Some(Instr::L2I),
        0x61 => Some(Instr::LAdd),
        0x2f => Some(Instr::LaLoad),
        0x7f => Some(Instr::LAnd),
        0x50 => Some(Instr::LaStore),
        0x94 => Some(Instr::LCmp),
        0x09 => Some(Instr::LConst0),
        0x0a => Some(Instr::LConst1),
        0x6d => Some(Instr::LDiv),
        0x1e => Some(Instr::LLoad(0)),
        0x1f => Some(Instr::LLoad(1)),
        0x20 => Some(Instr::LLoad(2)),
        0x21 => Some(Instr::LLoad(3)),
        0x69 => Some(Instr::LMul),
        0x75 => Some(Instr::LNeg),
        0x81 => Some(Instr::LOr),
        0x71 => Some(Instr::LRem),
        0xad => Some(Instr::LReturn),
        0x79 => Some(Instr::LShL),
        0x7b => Some(Instr::LShR),
        0x3f => Some(Instr::LStore(0)),
        0x40 => Some(Instr::LStore(1)),
        0x41 => Some(Instr::LStore(2)),
        0x42 => Some(Instr::LStore(3)),
        0x65 => Some(Instr::LSub),
        0x7d => Some(Instr::LUShR),
        0x83 => Some(Instr::LXor),
        0xc2 => Some(Instr::MonitorEnter),
        0xc3 => Some(Instr::MonitorExit),
        0x00 => Some(Instr::Nop),
        0x57 => Some(Instr::Pop),
        0x58 => Some(Instr::Pop2),
        0xb1 => Some(Instr::Return),
        0x35 => Some(Instr::SaLoad),
        0x56 => Some(Instr::SaStore),
        0x5f => Some(Instr::Swap),
        _ => None,
    }
}

/// The instruction that opcode `op` stands for, in this operand class.
pub open spec fn u8_operand_instr(op: u8, v: u8) -> Option<Instr> {
    match op {
        0x19u8 => Some(Instr::ALoad(v)),
        0x3au8 => Some(Instr::AStore(v)),
        0x18u8 => Some(Instr::DLoad(v)),
        0x39u8 => Some(Instr::DStore(v)),
        0x17u8 => Some(Instr::FLoad(v)),
        0x38u8 => Some(Instr::FStore(v)),
        0x15u8 => Some(Instr::ILoad(v)),
        0x36u8 => Some(Instr::IStore(v)),
        0x12u8 => Some(Instr::LdC(v)),
        0x16u8 => Some(Instr::LLoad(v)),
        0x37u8 => Some(Instr::LStore(v)),
        0xbcu8 => Some(Instr::NewArray(v)),
        0xa9u8 => Some(Instr::Ret(v)),
        _ => None,
    }
}

fn u8_operand_instr_exec(op: u8, v: u8) -> (r: Option<Instr>)
    ensures
        r == u8_operand_instr(op, v),
{
    match op {
        0x19 => Some(Instr::ALoad(v)),
        0x3a => Some(Instr::AStore(v)),
        0x18 => Some(Instr::DLoad(v)),
        0x39 => Some(Instr::DStore(v)),
        0x17 => Some(Instr::FLoad(v)),
        0x38 => Some(Instr::FStore(v)),
        0x15 => Some(Instr::ILoad(v)),
        0x36 => Some(Instr::IStore(v)),
        0x12 => Some(Instr::LdC(v)),
        0x16 => Some(Instr::LLoad(v)),
        0x37 => Some(Instr::LStore(v)),
        0xbc => Some(Instr::NewArray(v)),
        0xa9 => Some(Instr::Ret(v)),
        _ => None,
    }
}

/// The instruction that opcode `op` stands for, in this operand class.
pub open spec fn u16_operand_instr(op: u8, v: u16) -> Option<Instr> {
    match op {
        0xbdu8 => Some(Instr::ANewArray(v)),
        0xc0u8 => Some(Instr::CheckCast(v)),
        0xb4u8 => Some(Instr::GetField(v)),
        0xb2u8 => Some(Instr::GetStatic(v)),
        0xc1u8 => Some(Instr::InstanceOf(v)),
        0xb7u8 => Some(Instr::InvokeSpecial(v)),
        0xb8u8 => Some(Instr::InvokeStatic(v)),
        0xb6u8 => Some(Instr::InvokeVirtual(v)),
        0x13u8 => Some(Instr::LdCW(v)),
        0x14u8 => Some(Instr::LdC2W(v)),
        0xbbu8 => Some(Instr::New(v)),
        0xb5u8 => Some(Instr::PutField(v)),
        0xb3u8 => Some(Instr::PutStatic(v)),
        _ => None,
    }
}

fn u16_operand_instr_exec(op: u8, v: u16) -> (r: Option<Instr>)
    ensures
        r == u16_operand_instr(op, v),
{
    match op {
        0xbd => Some(Instr::ANewArray(v)),
        0xc0 => Some(Instr::CheckCast(v)),
        0xb4 => Some(Instr::GetField(v)),
        0xb2 => Some(Instr::GetStatic(v)),
        0xc1 => Some(Instr::InstanceOf(v)),
        0xb7 => Some(Instr::InvokeSpecial(v)),
        0xb8 => Some(Instr::InvokeStatic(v)),
        0xb6 => Some(Instr::InvokeVirtual(v)),
        0x13 => Some(Instr::LdCW(v)),
        0x14 => Some(Instr::LdC2W(v)),
        0xbb => Some(Instr::New(v)),
        0xb5 => Some(Instr::PutField(v)),
        0xb3 => Some(Instr::PutStatic(v)),
        _ => None,
    }
}

/// The instruction that opcode `op` stands for, in this operand class.
pub open spec fn i16_operand_instr(op: u8, v: i16) -> Option<Instr> {
    match op {
        0xa7u8 => Some(Instr::Goto(v)),
        0xa5u8 => Some(Instr::IfACmpEq(v)),
        0xa6u8 => Some(Instr::IfACmpNe(v)),
        0x9fu8 => Some(Instr::IfICmpEq(v)),
        0xa0u8 => Some(Instr::IfICmpNe(v)),
        0xa1u8 => Some(Instr::IfICmpLt(v)),
        0xa2u8 => Some(Instr::IfICmpGe(v)),
        0xa3u8 => Some(Instr::IfICmpGt(v)),
        0xa4u8 => Some(Instr::IfICmpLe(v)),
        0x99u8 => Some(Instr::IfEq(v)),
        0x9au8 => Some(Instr::IfNe(v)),
        0x9bu8 => Some(Instr::IfLt(v)),
        0x9cu8 => Some(Instr::IfGe(v)),
        0x9du8 => Some(Instr::IfGt(v)),
        0x9eu8 => Some(Instr::IfLe(v)),
        0xc7u8 => Some(Instr::IfNonNull(v)),
        0xc6u8 => Some(Instr::IfNull(v)),
        0xa8u8 => Some(Instr::Jsr(v)),
        0x11u8 => Some(Instr::SiPush(v)),
        _ => None,
    }
}

fn i16_operand_instr_exec(op: u8, v: i16) -> (r: Option<Instr>)
    ensures
        r == i16_operand_instr(op, v),
{
    match op {
        0xa7 => Some(Instr::Goto(v)),
        0xa5 => Some(Instr::IfACmpEq(v)),
        0xa6 => Some(Instr::IfACmpNe(v)),
        0x9f => Some(Instr::IfICmpEq(v)),
        0xa0 => Some(Instr::IfICmpNe(v)),
        0xa1 => Some(Instr::IfICmpLt(v)),
        0xa2 => Some(Instr::IfICmpGe(v)),
        0xa3 => Some(Instr::IfICmpGt(v)),
        0xa4 => Some(Instr::IfICmpLe(v)),
        0x99 => Some(Instr::IfEq(v)),
        0x9a => Some(Instr::IfNe(v)),
        0x9b => Some(Instr::IfLt(v)),
        0x9c => Some(Instr::IfGe(v)),
        0x9d => Some(Instr::IfGt(v)),
        0x9e => Some(Instr::IfLe(v)),
        0xc7 => Some(Instr::IfNonNull(v)),
        0xc6 => Some(Instr::IfNull(v)),
        0xa8 => Some(Instr::Jsr(v)),
        0x11 => Some(Instr::SiPush(v)),
        _ => None,
    }
}

/// The instruction that opcode `op` stands for, in this operand class.
pub open spec fn i32_operand_instr(op: u8, v: i32) -> Option<Instr> {
    match op {
        0xc8u8 => Some(Instr::GotoW(v)),
        0xc9u8 => Some(Instr::JsrW(v)),
        _ => None,
    }
}

fn i32_operand_instr_exec(op: u8, v: i32) -> (r: Option<Instr>)
    ensures
        r == i32_operand_instr(op, v),
{
    match op {
        0xc8 => Some(Instr::GotoW(v)),
        0xc9 => Some(Instr::JsrW(v)),
        _ => None,
    }
}

/// The instruction that opcode `op` after `wide` stands for, when its
/// operand is a single `u16`.
pub open spec fn wide_u16_instr(op: u8, v: u16) -> Option<Instr> {
    match op {
        0x15u8 => Some(Instr::WideILoad(v)),
        0x17u8 => Some(Instr::WideFLoad(v)),
        0x19u8 => Some(Instr::WideALoad(v)),
        0x16u8 => Some(Instr::WideLLoad(v)),
        0x18u8 => Some(Instr::WideDLoad(v)),
        0x36u8 => Some(Instr::WideIStore(v)),
        0x38u8 => Some(Instr::WideFStore(v)),
        0x3au8 => Some(Instr::WideAStore(v)),
        0x37u8 => Some(Instr::WideLStore(v)),
        0x39u8 => Some(Instr::WideDStore(v)),
        0xa9u8 => Some(Instr::WideRet(v)),
        _ => None,
    }
}

fn wide_u16_instr_exec(op: u8, v: u16) -> (r: Option<Instr>)
    ensures
        r == wide_u16_instr(op, v),
{
    match op {
        0x15 => Some(Instr::WideILoad(v)),
        0x17 => Some(Instr::WideFLoad(v)),
        0x19 => Some(Instr::WideALoad(v)),
        0x16 => Some(Instr::WideLLoad(v)),
        0x18 => Some(Instr::WideDLoad(v)),
        0x36 => Some(Instr::WideIStore(v)),
        0x38 => Some(Instr::WideFStore(v)),
        0x3a => Some(Instr::WideAStore(v)),
        0x37 => Some(Instr::WideLStore(v)),
        0x39 => Some(Instr::WideDStore(v)),
        0xa9 => Some(Instr::WideRet(v)),
        _ => None,
    }
}

/// Opcodes whose decoding the decoder does not provide: `lookupswitch`,
/// `multianewarray` and `tableswitch`.
pub open spec fn is_undecodable_opcode(op: u8) -> bool {
    op == 0xabu8 || op == 0xc5u8 || op == 0xaau8
}

/// Decodes the instruction at `p` (which lies inside the code): the
/// instruction and the position after it, or why decoding failed.
pub open spec fn spec_decode_at(s: Seq<u8>, p: int) -> Result<(Instr, int), ClassFileError> {
    let op = s[p];
    let q = p + 1;
    if no_operand_instr(op) is Some {
        Ok((no_operand_instr(op)->0, q))
    } else if u8_operand_instr(op, 0) is Some {
        match spec_u8(s, q) {
            Ok((v, r)) => Ok((u8_operand_instr(op, v)->0, r)),
            Err(e) => Err(e),
        }
    } else if op == 0x10u8 {
        match spec_i8(s, q) {
            Ok((v, r)) => Ok((Instr::BiPush(v), r)),
            Err(e) => Err(e),
        }
    } else if u16_operand_instr(op, 0) is Some {
        match spec_u16(s, q) {
            Ok((v, r)) => Ok((u16_operand_instr(op, v)->0, r)),
            Err(e) => Err(e),
        }
    } else if i16_operand_instr(op, 0) is Some {
        match spec_i16(s, q) {
            Ok((v, r)) => Ok((i16_operand_instr(op, v)->0, r)),
            Err(e) => Err(e),
        }
    } else if i32_operand_instr(op, 0) is Some {
        match spec_i32(s, q) {
            Ok((v, r)) => Ok((i32_operand_instr(op, v)->0, r)),
            Err(e) => Err(e),
        }
    } else if op == 0x84u8 {
        match spec_u8(s, q) {
            Ok((a, r)) => match spec_i8(s, r) {
                Ok((b, t)) => Ok((Instr::IInc(a, b), t)),
                Err(e) => Err(e),
            },
            Err(e) => Err(e),
        }
    } else if op == 0xbau8 {
        match spec_u16(s, q) {
            Ok((a, r)) => match spec_u16(s, r) {
                Ok((b, t)) => Ok((Instr::InvokeDynamic(a, b), t)),
                Err(e) => Err(e),
            },
            Err(e) => Err(e),
        }
    } else if op == 0xb9u8 {
        match spec_u16(s, q) {
            Ok((a, r)) => match spec_u8(s, r) {
                Ok((b, t)) => match spec_u8(s, t) {
                    Ok((c, w)) => Ok((Instr::InvokeInterface(a, b, c), w)),
                    Err(e) => Err(e),
                },
                Err(e) => Err(e),
            },
            Err(e) => Err(e),
        }
    } else if op == 0xc4u8 {
        match spec_u8(s, q) {
            Ok((sub, r)) => if wide_u16_instr(sub, 0) is Some {
                match spec_u16(s, r) {
                    Ok((v, t)) => Ok((wide_u16_instr(sub, v)->0, t)),
                    Err(e) => Err(e),
                }
            } else if sub == 0x84u8 {
                match spec_u16(s, r) {
                    Ok((a, t)) => match spec_i16(s, t) {
                        Ok((b, w)) => Ok((Instr::WideIInc(a, b), w)),
                        Err(e) => Err(e),
                    },
                    Err(e) => Err(e),
                }
            } else {
                Err(ClassFileError::UnknownWideOpcode(sub))
            },
            Err(e) => Err(e),
        }
    } else {
        Err(ClassFileError::UnknownOpcode(op))
    }
}

/// An instruction decoded at `p` ends after `p` and within the code: so
/// each `decode_next` that returns `Some((p, _))` moves the position forward
/// from `p` without passing the end, and a run of calls reaches the end,
/// where it returns `None` and leaves the position where it is.
pub proof fn law_decode_advances(s: Seq<u8>, p: int)
    requires
        0 <= p < s.len(),
    ensures
        spec_decode_at(s, p) matches Ok((i, q)) ==> p < q <= s.len(),
{
}

/// Where the decoder stands after failing at `p` with `e`: at the end for a
/// truncated instruction, after the bytes it read for an unknown opcode.
pub open spec fn spec_position_after_error(s: Seq<u8>, p: int, e: ClassFileError) -> int {
    match e {
        ClassFileError::UnknownOpcode(_) => p + 1,
        ClassFileError::UnknownWideOpcode(_) => p + 2,
        _ => s.len() as int,
    }
}

/// Decodes the instruction at `pos`.
pub(crate) fn decode_at(s: &[u8], pos: usize) -> (r: Result<(Instr, usize), ClassFileError>)
    requires
        pos < s@.len(),
        !is_undecodable_opcode(s@[pos as int]),
    ensures
        agrees(r, spec_decode_at(s@, pos as int)),
        r matches Err(e) ==> (e is UnexpectedEof || e is UnknownOpcode || e is UnknownWideOpcode),
{
    let op = s[pos];
    let q = pos + 1;
    if let Some(i) = no_operand_instr_exec(op) {
        return Ok((i, q));
    }
    if u8_operand_instr_exec(op, 0).is_some() {
        let (v, r) = match read_u8(s, q) { Ok(x) => x, Err(e) => return Err(e) };
        return match u8_operand_instr_exec(op, v) { Some(i) => Ok((i, r)), None => Err(ClassFileError::UnknownOpcode(op)) };
    }
    if op == 0x10 {
        let (v, r) = match read_i8(s, q) { Ok(x) => x, Err(e) => return Err(e) };
        return Ok((Instr::BiPush(v), r));
    }
    if u16_operand_instr_exec(op, 0).is_some() {
        let (v, r) = match read_u16(s, q) { Ok(x) => x, Err(e) => return Err(e) };
        return match u16_operand_instr_exec(op, v) { Some(i) => Ok((i, r)), None => Err(ClassFileError::UnknownOpcode(op)) };
    }
    if i16_operand_instr_exec(op, 0).is_some() {
        let (v, r) = match read_i16(s, q) { Ok(x) => x, Err(e) => return Err(e) };
        return match i16_operand_instr_exec(op, v) { Some(i) => Ok((i, r)), None => Err(ClassFileError::UnknownOpcode(op)) };
    }
    if i32_operand_instr_exec(op, 0).is_some() {
        let (v, r) = match read_i32(s, q) { Ok(x) => x, Err(e) => return Err(e) };
        return match i32_operand_instr_exec(op, v) { Some(i) => Ok((i, r)), None => Err(ClassFileError::UnknownOpcode(op)) };
    }
    if op == 0x84 {
        let (a, r) = match read_u8(s, q) { Ok(x) => x, Err(e) => return Err(e) };
        let (b, t) = match read_i8(s, r) { Ok(x) => x, Err(e) => return Err(e) };
        return Ok((Instr::IInc(a, b), t));
    }
    if op == 0xba {
        let (a, r) = match read_u16(s, q) { Ok(x) => x, Err(e) => return Err(e) };
        let (b, t) = match read_u16(s, r) { Ok(x) => x, Err(e) => return Err(e) };
        return Ok((Instr::InvokeDynamic(a, b), t));
    }
    if op == 0xb9 {
        let (a, r) = match read_u16(s, q) { Ok(x) => x, Err(e) => return Err(e) };
        let (b, t) = match read_u8(s, r) { Ok(x) => x, Err(e) => return Err(e) };
        let (c, w) = match read_u8(s, t) { Ok(x) => x, Err(e) => return Err(e) };
        return Ok((Instr::InvokeInterface(a, b, c), w));
    }
    if op == 0xc4 {
        let (sub, r) = match read_u8(s, q) { Ok(x) => x, Err(e) => return Err(e) };
        if wide_u16_instr_exec(sub, 0).is_some() {
            let (v, t) = match read_u16(s, r) { Ok(x) => x, Err(e) => return Err(e) };
            return match wide_u16_instr_exec(sub, v) { Some(i) => Ok((i, t)), None => Err(ClassFileError::UnknownWideOpcode(sub)) };
        }
        if sub == 0x84 {
            let (a, t) = match read_u16(s, r) { Ok(x) => x, Err(e) => return Err(e) };
            let (b, w) = match read_i16(s, t) { Ok(x) => x, Err(e) => return Err(e) };
            return Ok((Instr::WideIInc(a, b), w));
        }
        return Err(ClassFileError::UnknownWideOpcode(sub));
    }
    Err(ClassFileError::UnknownOpcode(op))
}

/// Decodes the instructions of a method's code one after the other, from a
/// position that can be moved.
pub struct Disassembler {
    code: Vec<u8>,
    pos: u32,
}

impl Disassembler {
    /// The code bytes.
    pub closed spec fn spec_code(&self) -> Seq<u8> {
        self.code@
    }

    /// The current position.
    pub closed spec fn spec_pos(&self) -> u32 {
        self.pos
    }

    /// Positions are `u32`s, so the code must be no longer than that.
    pub open spec fn wf(&self) -> bool {
        self.spec_code().len() <= u32::MAX
    }

    /// A disassembler at the start of `code`.
    pub fn new(code: Vec<u8>) -> (r: Disassembler)
        requires
            code@.len() <= u32::MAX,
        ensures
            r.wf(),
            r.spec_code() == code@,
            r.spec_pos() == 0,
    {
        Disassembler { code, pos: 0 }
    }

    /// The code bytes.
    pub fn code(&self) -> (r: &[u8])
        ensures
            r@ == self.spec_code(),
    {
        self.code.as_slice()
    }

    pub fn position(&self) -> (r: u32)
        ensures
            r == self.spec_pos(),
    {
        self.pos
    }

    pub fn set_position(&mut self, pos: u32)
        ensures
            final(self).spec_code() == old(self).spec_code(),
            final(self).spec_pos() == pos,
    {
        self.pos = pos;
    }

    /// Decodes the instruction at the current position and moves past it;
    /// `None` once the position is at or after the end of the code.
    pub fn decode_next(&mut self) -> (r: Result<Option<(u32, Instr)>, ClassFileError>)
        requires
            old(self).wf(),
            old(self).spec_pos() < old(self).spec_code().len() ==> !is_undecodable_opcode(
                old(self).spec_code()[old(self).spec_pos() as int],
            ),
        ensures
            final(self).wf(),
            final(self).spec_code() == old(self).spec_code(),
            ({
                let s = old(self).spec_code();
                let p = old(self).spec_pos();
                if p >= s.len() {
                    r == Ok::<Option<(u32, Instr)>, ClassFileError>(None) && final(self).spec_pos() == p
                } else {
                    match spec_decode_at(s, p as int) {
                        Ok((i, q)) => r == Ok::<Option<(u32, Instr)>, ClassFileError>(Some((p, i)))
                            && final(self).spec_pos() == q,
                        Err(e) => r == Err::<Option<(u32, Instr)>, ClassFileError>(e)
                            && final(self).spec_pos() == spec_position_after_error(s, p as int, e),
                    }
                }
            }),
    {
        let pos = self.pos;
        if pos as usize >= self.code.len() {
            return Ok(None);
        }
        match decode_at(self.code.as_slice(), pos as usize) {
            Ok((i, q)) => {
                self.pos = q as u32;
                Ok(Some((pos, i)))
            },
            Err(e) => {
                self.pos = match e {
                    ClassFileError::UnknownOpcode(_) => pos + 1,
                    ClassFileError::UnknownWideOpcode(_) => pos + 2,
                    _ => self.code.len() as u32,
                };
                Err(e)
            },
        }
    }
}

} // verus!
