//! The text that `Debug` gives instructions and constant pool entries.
use vstd::prelude::*;
use crate::classfile::constant_pool::{Constant, ConstantIndex, SpecConstant};
use crate::classfile::instructions::Instr;
use crate::text::{
    comma, decimal, list_text, pair_text, push_char, push_comma, push_decimal, push_i32_list,
    push_pair_list, push_signed_decimal, signed_decimal, signed_field, signed_field_text,
    str_debug, str_debug_text, unsigned_field, unsigned_field_text,
};

verus! {

/// The `Debug` text of an instruction: its variant's name, followed by its
/// operands in round brackets when it has any.
pub open spec fn spec_instr_debug(i: Instr) -> Seq<char> {
    match i {
        Instr::AaLoad => "AaLoad"@,
        Instr::AaStore => "AaStore"@,
        Instr::AConstNull => "AConstNull"@,
        Instr::ALoad(a) => unsigned_field_text("ALoad("@, a as nat),
        Instr::ALoad0 => "ALoad0"@,
        Instr::ALoad1 => "ALoad1"@,
        Instr::ALoad2 => "ALoad2"@,
        Instr::ALoad3 => "ALoad3"@,
        Instr::ANewArray(a) => unsigned_field_text("ANewArray("@, a as nat),
        Instr::AReturn => "AReturn"@,
        Instr::ArrayLength => "ArrayLength"@,
        Instr::AStore(a) => unsigned_field_text("AStore("@, a as nat),
        Instr::AStore0 => "AStore0"@,
        Instr::AStore1 => "AStore1"@,
        Instr::AStore2 => "AStore2"@,
        Instr::AStore3 => "AStore3"@,
        Instr::AThrow => "AThrow"@,
        Instr::BaLoad => "BaLoad"@,
        Instr::BaStore => "BaStore"@,
        Instr::BiPush(a) => signed_field_text("BiPush("@, a as int),
        Instr::CaLoad => "CaLoad"@,
        Instr::CaStore => "CaStore"@,
        Instr::CheckCast(a) => unsigned_field_text("CheckCast("@, a as nat),
        Instr::D2F => "D2F"@,
        Instr::D2I => "D2I"@,
        Instr::D2L => "D2L"@,
        Instr::DAdd => "DAdd"@,
        Instr::DaLoad => "DaLoad"@,
        Instr::DaStore => "DaStore"@,
        Instr::DCmpG => "DCmpG"@,
        Instr::DCmpL => "DCmpL"@,
        Instr::DConst0 => "DConst0"@,
        Instr::DConst1 => "DConst1"@,
        Instr::DDiv => "DDiv"@,
        Instr::DLoad(a) => unsigned_field_text("DLoad("@, a as nat),
        Instr::DMul => "DMul"@,
        Instr::DNeg => "DNeg"@,
        Instr::DRem => "DRem"@,
        Instr::DReturn => "DReturn"@,
        Instr::DStore(a) => unsigned_field_text("DStore("@, a as nat),
        Instr::DSub => "DSub"@,
        Instr::Dup => "Dup"@,
        Instr::DupX1 => "DupX1"@,
        Instr::DupX2 => "DupX2"@,
        Instr::Dup2 => "Dup2"@,
        Instr::Dup2X1 => "Dup2X1"@,
        Instr::Dup2X2 => "Dup2X2"@,
        Instr::F2D => "F2D"@,
        Instr::F2I => "F2I"@,
        Instr::F2L => "F2L"@,
        Instr::FAdd => "FAdd"@,
        Instr::FaLoad => "FaLoad"@,
        Instr::FaStore => "FaStore"@,
        Instr::FCmpG => "FCmpG"@,
        Instr::FCmpL => "FCmpL"@,
        Instr::FConst0 => "FConst0"@,
        Instr::FConst1 => "FConst1"@,
        Instr::FConst2 => "FConst2"@,
        Instr::FDiv => "FDiv"@,
        Instr::FLoad(a) => unsigned_field_text("FLoad("@, a as nat),
        Instr::FMul => "FMul"@,
        Instr::FNeg => "FNeg"@,
        Instr::FRem => "FRem"@,
        Instr::FReturn => "FReturn"@,
        Instr::FStore(a) => unsigned_field_text("FStore("@, a as nat),
        Instr::FSub => "FSub"@,
        Instr::GetField(a) => unsigned_field_text("GetField("@, a as nat),
        Instr::GetStatic(a) => unsigned_field_text("GetStatic("@, a as nat),
        Instr::Goto(a) => signed_field_text("Goto("@, a as int),
        Instr::GotoW(a) => signed_field_text("GotoW("@, a as int),
        Instr::I2B => "I2B"@,
        Instr::I2C => "I2C"@,
        Instr::I2D => "I2D"@,
        Instr::I2F => "I2F"@,
        Instr::I2L => "I2L"@,
        Instr::I2S => "I2S"@,
        Instr::IAdd => "IAdd"@,
        Instr::IaLoad => "IaLoad"@,
        Instr::IAnd => "IAnd"@,
        Instr::IaStore => "IaStore"@,
        Instr::IConstM1 => "IConstM1"@,
        Instr::IConst0 => "IConst0"@,
        Instr::IConst1 => "IConst1"@,
        Instr::IConst2 => "IConst2"@,
        Instr::IConst3 => "IConst3"@,
        Instr::IConst4 => "IConst4"@,
        Instr::IConst5 => "IConst5"@,
        Instr::IDiv => "IDiv"@,
        Instr::IfACmpEq(a) => signed_field_text("IfACmpEq("@, a as int),
        Instr::IfACmpNe(a) => signed_field_text("IfACmpNe("@, a as int),
        Instr::IfICmpEq(a) => signed_field_text("IfICmpEq("@, a as int),
        Instr::IfICmpNe(a) => signed_field_text("IfICmpNe("@, a as int),
        Instr::IfICmpLt(a) => signed_field_text("IfICmpLt("@, a as int),
        Instr::IfICmpGe(a) => signed_field_text("IfICmpGe("@, a as int),
        Instr::IfICmpGt(a) => signed_field_text("IfICmpGt("@, a as int),
        Instr::IfICmpLe(a) => signed_field_text("IfICmpLe("@, a as int),
        Instr::IfEq(a) => signed_field_text("IfEq("@, a as int),
        Instr::IfNe(a) => signed_field_text("IfNe("@, a as int),
        Instr::IfLt(a) => signed_field_text("IfLt("@, a as int),
        Instr::IfGe(a) => signed_field_text("IfGe("@, a as int),
        Instr::IfGt(a) => signed_field_text("IfGt("@, a as int),
        Instr::IfLe(a) => signed_field_text("IfLe("@, a as int),
        Instr::IfNonNull(a) => signed_field_text("IfNonNull("@, a as int),
        Instr::IfNull(a) => signed_field_text("IfNull("@, a as int),
        Instr::IInc(a, b) => "IInc("@ + decimal(a as nat) + comma() + signed_decimal(b as int) + seq![')'],
        Instr::ILoad(a) => unsigned_field_text("ILoad("@, a as nat),
        Instr::IMul => "IMul"@,
        Instr::INeg => "INeg"@,
        Instr::InstanceOf(a) => unsigned_field_text("InstanceOf("@, a as nat),
        Instr::InvokeDynamic(a, b) => "InvokeDynamic("@ + decimal(a as nat) + comma() + decimal(b as nat) + seq![')'],
        Instr::InvokeInterface(a, b, c) => "InvokeInterface("@ + decimal(a as nat) + comma() + decimal(b as nat) + comma() + decimal(c as nat) + seq![')'],
        Instr::InvokeSpecial(a) => unsigned_field_text("InvokeSpecial("@, a as nat),
        Instr::InvokeStatic(a) => unsigned_field_text("InvokeStatic("@, a as nat),
        Instr::InvokeVirtual(a) => unsigned_field_text("InvokeVirtual("@, a as nat),
        Instr::IOr => "IOr"@,
        Instr::IRem => "IRem"@,
        Instr::IReturn => "IReturn"@,
        Instr::IShL => "IShL"@,
        Instr::IShR => "IShR"@,
        Instr::IStore(a) => unsigned_field_text("IStore("@, a as nat),
        Instr::ISub => "ISub"@,
        Instr::IUShR => "IUShR"@,
        Instr::IXor => "IXor"@,
        Instr::Jsr(a) => signed_field_text("Jsr("@, a as int),
        Instr::JsrW(a) => signed_field_text("JsrW("@, a as int),
        Instr::L2D => "L2D"@,
        Instr::L2F => "L2F"@,
        Instr::L2I => "L2I"@,
        Instr::LAdd => "LAdd"@,
        Instr::LaLoad => "LaLoad"@,
        Instr::LAnd => "LAnd"@,
        Instr::LaStore => "LaStore"@,
        Instr::LCmp => "LCmp"@,
        Instr::LConst0 => "LConst0"@,
        Instr::LConst1 => "LConst1"@,
        Instr::LdC(a) => unsigned_field_text("LdC("@, a as nat),
        Instr::LdCW(a) => unsigned_field_text("LdCW("@, a as nat),
        Instr::LdC2W(a) => unsigned_field_text("LdC2W("@, a as nat),
        Instr::LDiv => "LDiv"@,
        Instr::LLoad(a) => unsigned_field_text("LLoad("@, a as nat),
        Instr::LMul => "LMul"@,
        Instr::LNeg => "LNeg"@,
        Instr::LookupSwitch(d, pairs) => "LookupSwitch("@ + signed_decimal(d as int) + comma() + list_text(pairs@.map_values(|p: (i32, i32)| pair_text(p))) + seq![')'],
        Instr::LOr => "LOr"@,
        Instr::LRem => "LRem"@,
        Instr::LReturn => "LReturn"@,
        Instr::LShL => "LShL"@,
        Instr::LShR => "LShR"@,
        Instr::LStore(a) => unsigned_field_text("LStore("@, a as nat),
        Instr::LSub => "LSub"@,
        Instr::LUShR => "LUShR"@,
        Instr::LXor => "LXor"@,
        Instr::MonitorEnter => "MonitorEnter"@,
        Instr::MonitorExit => "MonitorExit"@,
        Instr::MultiNewArray(a, b) => "MultiNewArray("@ + decimal(a as nat) + comma() + decimal(b as nat) + seq![')'],
        Instr::New(a) => unsigned_field_text("New("@, a as nat),
        Instr::NewArray(a) => unsigned_field_text("NewArray("@, a as nat),
        Instr::Nop => "Nop"@,
        Instr::Pop => "Pop"@,
        Instr::Pop2 => "Pop2"@,
        Instr::PutField(a) => unsigned_field_text("PutField("@, a as nat),
        Instr::PutStatic(a) => unsigned_field_text("PutStatic("@, a as nat),
        Instr::Ret(a) => unsigned_field_text("Ret("@, a as nat),
        Instr::Return => "Return"@,
        Instr::SaLoad => "SaLoad"@,
        Instr::SaStore => "SaStore"@,
        Instr::SiPush(a) => signed_field_text("SiPush("@, a as int),
        Instr::Swap => "Swap"@,
        Instr::TableSwitch(d, lo, hi, offs) => "TableSwitch("@ + signed_decimal(d as int) + comma() + signed_decimal(lo as int) + comma() + signed_decimal(hi as int) + comma() + list_text(offs@.map_values(|x: i32| signed_decimal(x as int))) + seq![')'],
        Instr::WideILoad(a) => unsigned_field_text("WideILoad("@, a as nat),
        Instr::WideFLoad(a) => unsigned_field_text("WideFLoad("@, a as nat),
        Instr::WideALoad(a) => unsigned_field_text("WideALoad("@, a as nat),
        Instr::WideLLoad(a) => unsigned_field_text("WideLLoad("@, a as nat),
        Instr::WideDLoad(a) => unsigned_field_text("WideDLoad("@, a as nat),
        Instr::WideIStore(a) => unsigned_field_text("WideIStore("@, a as nat),
        Instr::WideFStore(a) => unsigned_field_text("WideFStore("@, a as nat),
        Instr::WideAStore(a) => unsigned_field_text("WideAStore("@, a as nat),
        Instr::WideLStore(a) => unsigned_field_text("WideLStore("@, a as nat),
        Instr::WideDStore(a) => unsigned_field_text("WideDStore("@, a as nat),
        Instr::WideRet(a) => unsigned_field_text("WideRet("@, a as nat),
        Instr::WideIInc(a, b) => "WideIInc("@ + decimal(a as nat) + comma() + signed_decimal(b as int) + seq![')'],
    }
}

impl Instr {
    /// The text that `Debug` gives the instruction.
    pub fn debug_text(&self) -> (r: String)
        ensures
            r@ == spec_instr_debug(*self),
    {
        match self {
            Instr::AaLoad => String::from_str("AaLoad"),
            Instr::AaStore => String::from_str("AaStore"),
            Instr::AConstNull => String::from_str("AConstNull"),
            Instr::ALoad(a) => unsigned_field("ALoad(", *a as u64),
            Instr::ALoad0 => String::from_str("ALoad0"),
            Instr::ALoad1 => String::from_str("ALoad1"),
            Instr::ALoad2 => String::from_str("ALoad2"),
            Instr::ALoad3 => String::from_str("ALoad3"),
            Instr::ANewArray(a) => unsigned_field("ANewArray(", *a as u64),
            Instr::AReturn => String::from_str("AReturn"),
            Instr::ArrayLength => String::from_str("ArrayLength"),
            Instr::AStore(a) => unsigned_field("AStore(", *a as u64),
            Instr::AStore0 => String::from_str("AStore0"),
            Instr::AStore1 => String::from_str("AStore1"),
            Instr::AStore2 => String::from_str("AStore2"),
            Instr::AStore3 => String::from_str("AStore3"),
            Instr::AThrow => String::from_str("AThrow"),
            Instr::BaLoad => String::from_str("BaLoad"),
            Instr::BaStore => String::from_str("BaStore"),
            Instr::BiPush(a) => signed_field("BiPush(", *a as i64),
            Instr::CaLoad => String::from_str("CaLoad"),
            Instr::CaStore => String::from_str("CaStore"),
            Instr::CheckCast(a) => unsigned_field("CheckCast(", *a as u64),
            Instr::D2F => String::from_str("D2F"),
            Instr::D2I => String::from_str("D2I"),
            Instr::D2L => String::from_str("D2L"),
            Instr::DAdd => String::from_str("DAdd"),
            Instr::DaLoad => String::from_str("DaLoad"),
            Instr::DaStore => String::from_str("DaStore"),
            Instr::DCmpG => String::from_str("DCmpG"),
            Instr::DCmpL => String::from_str("DCmpL"),
            Instr::DConst0 => String::from_str("DConst0"),
            Instr::DConst1 => String::from_str("DConst1"),
            Instr::DDiv => String::from_str("DDiv"),
            Instr::DLoad(a) => unsigned_field("DLoad(", *a as u64),
            Instr::DMul => String::from_str("DMul"),
            Instr::DNeg => String::from_str("DNeg"),
            Instr::DRem => String::from_str("DRem"),
            Instr::DReturn => String::from_str("DReturn"),
            Instr::DStore(a) => unsigned_field("DStore(", *a as u64),
            Instr::DSub => String::from_str("DSub"),
            Instr::Dup => String::from_str("Dup"),
            Instr::DupX1 => String::from_str("DupX1"),
            Instr::DupX2 => String::from_str("DupX2"),
            Instr::Dup2 => String::from_str("Dup2"),
            Instr::Dup2X1 => String::from_str("Dup2X1"),
            Instr::Dup2X2 => String::from_str("Dup2X2"),
            Instr::F2D => String::from_str("F2D"),
            Instr::F2I => String::from_str("F2I"),
            Instr::F2L => String::from_str("F2L"),
            Instr::FAdd => String::from_str("FAdd"),
            Instr::FaLoad => String::from_str("FaLoad"),
            Instr::FaStore => String::from_str("FaStore"),
            Instr::FCmpG => String::from_str("FCmpG"),
            Instr::FCmpL => String::from_str("FCmpL"),
            Instr::FConst0 => String::from_str("FConst0"),
            Instr::FConst1 => String::from_str("FConst1"),
            Instr::FConst2 => String::from_str("FConst2"),
            Instr::FDiv => String::from_str("FDiv"),
            Instr::FLoad(a) => unsigned_field("FLoad(", *a as u64),
            Instr::FMul => String::from_str("FMul"),
            Instr::FNeg => String::from_str("FNeg"),
            Instr::FRem => String::from_str("FRem"),
            Instr::FReturn => String::from_str("FReturn"),
            Instr::FStore(a) => unsigned_field("FStore(", *a as u64),
            Instr::FSub => String::from_str("FSub"),
            Instr::GetField(a) => unsigned_field("GetField(", *a as u64),
            Instr::GetStatic(a) => unsigned_field("GetStatic(", *a as u64),
            Instr::Goto(a) => signed_field("Goto(", *a as i64),
            Instr::GotoW(a) => signed_field("GotoW(", *a as i64),
            Instr::I2B => String::from_str("I2B"),
            Instr::I2C => String::from_str("I2C"),
            Instr::I2D => String::from_str("I2D"),
            Instr::I2F => String::from_str("I2F"),
            Instr::I2L => String::from_str("I2L"),
            Instr::I2S => String::from_str("I2S"),
            Instr::IAdd => String::from_str("IAdd"),
            Instr::IaLoad => String::from_str("IaLoad"),
            Instr::IAnd => String::from_str("IAnd"),
            Instr::IaStore => String::from_str("IaStore"),
            Instr::IConstM1 => String::from_str("IConstM1"),
            Instr::IConst0 => String::from_str("IConst0"),
            Instr::IConst1 => String::from_str("IConst1"),
            Instr::IConst2 => String::from_str("IConst2"),
            Instr::IConst3 => String::from_str("IConst3"),
            Instr::IConst4 => String::from_str("IConst4"),
            Instr::IConst5 => String::from_str("IConst5"),
            Instr::IDiv => String::from_str("IDiv"),
            Instr::IfACmpEq(a) => signed_field("IfACmpEq(", *a as i64),
            Instr::IfACmpNe(a) => signed_field("IfACmpNe(", *a as i64),
            Instr::IfICmpEq(a) => signed_field("IfICmpEq(", *a as i64),
            Instr::IfICmpNe(a) => signed_field("IfICmpNe(", *a as i64),
            Instr::IfICmpLt(a) => signed_field("IfICmpLt(", *a as i64),
            Instr::IfICmpGe(a) => signed_field("IfICmpGe(", *a as i64),
            Instr::IfICmpGt(a) => signed_field("IfICmpGt(", *a as i64),
            Instr::IfICmpLe(a) => signed_field("IfICmpLe(", *a as i64),
            Instr::IfEq(a) => signed_field("IfEq(", *a as i64),
            Instr::IfNe(a) => signed_field("IfNe(", *a as i64),
            Instr::IfLt(a) => signed_field("IfLt(", *a as i64),
            Instr::IfGe(a) => signed_field("IfGe(", *a as i64),
            Instr::IfGt(a) => signed_field("IfGt(", *a as i64),
            Instr::IfLe(a) => signed_field("IfLe(", *a as i64),
            Instr::IfNonNull(a) => signed_field("IfNonNull(", *a as i64),
            Instr::IfNull(a) => signed_field("IfNull(", *a as i64),
            Instr::IInc(a, b) => {
                let mut out = String::from_str("IInc(");
                push_decimal(&mut out, *a as u64);
                push_comma(&mut out);
                push_signed_decimal(&mut out, *b as i64);
                push_char(&mut out, ')');
                out
            },
            Instr::ILoad(a) => unsigned_field("ILoad(", *a as u64),
            Instr::IMul => String::from_str("IMul"),
            Instr::INeg => String::from_str("INeg"),
            Instr::InstanceOf(a) => unsigned_field("InstanceOf(", *a as u64),
            Instr::InvokeDynamic(a, b) => {
                let mut out = String::from_str("InvokeDynamic(");
                push_decimal(&mut out, *a as u64);
                push_comma(&mut out);
                push_decimal(&mut out, *b as u64);
                push_char(&mut out, ')');
                out
            },
            Instr::InvokeInterface(a, b, c) => {
                let mut out = String::from_str("InvokeInterface(");
                push_decimal(&mut out, *a as u64);
                push_comma(&mut out);
                push_decimal(&mut out, *b as u64);
                push_comma(&mut out);
                push_decimal(&mut out, *c as u64);
                push_char(&mut out, ')');
                out
            },
            Instr::InvokeSpecial(a) => unsigned_field("InvokeSpecial(", *a as u64),
            Instr::InvokeStatic(a) => unsigned_field("InvokeStatic(", *a as u64),
            Instr::InvokeVirtual(a) => unsigned_field("InvokeVirtual(", *a as u64),
            Instr::IOr => String::from_str("IOr"),
            Instr::IRem => String::from_str("IRem"),
            Instr::IReturn => String::from_str("IReturn"),
            Instr::IShL => String::from_str("IShL"),
            Instr::IShR => String::from_str("IShR"),
            Instr::IStore(a) => unsigned_field("IStore(", *a as u64),
            Instr::ISub => String::from_str("ISub"),
            Instr::IUShR => String::from_str("IUShR"),
            Instr::IXor => String::from_str("IXor"),
            Instr::Jsr(a) => signed_field("Jsr(", *a as i64),
            Instr::JsrW(a) => signed_field("JsrW(", *a as i64),
            Instr::L2D => String::from_str("L2D"),
            Instr::L2F => String::from_str("L2F"),
            Instr::L2I => String::from_str("L2I"),
            Instr::LAdd => String::from_str("LAdd"),
            Instr::LaLoad => String::from_str("LaLoad"),
            Instr::LAnd => String::from_str("LAnd"),
            Instr::LaStore => String::from_str("LaStore"),
            Instr::LCmp => String::from_str("LCmp"),
            Instr::LConst0 => String::from_str("LConst0"),
            Instr::LConst1 => String::from_str("LConst1"),
            Instr::LdC(a) => unsigned_field("LdC(", *a as u64),
            Instr::LdCW(a) => unsigned_field("LdCW(", *a as u64),
            Instr::LdC2W(a) => unsigned_field("LdC2W(", *a as u64),
            Instr::LDiv => String::from_str("LDiv"),
            Instr::LLoad(a) => unsigned_field("LLoad(", *a as u64),
            Instr::LMul => String::from_str("LMul"),
            Instr::LNeg => String::from_str("LNeg"),
            Instr::LookupSwitch(d, pairs) => {
                let mut out = String::from_str("LookupSwitch(");
                push_signed_decimal(&mut out, *d as i64);
                push_comma(&mut out);
                push_pair_list(&mut out, pairs);
                push_char(&mut out, ')');
                out
            },
            Instr::LOr => String::from_str("LOr"),
            Instr::LRem => String::from_str("LRem"),
            Instr::LReturn => String::from_str("LReturn"),
            Instr::LShL => String::from_str("LShL"),
            Instr::LShR => String::from_str("LShR"),
            Instr::LStore(a) => unsigned_field("LStore(", *a as u64),
            Instr::LSub => String::from_str("LSub"),
            Instr::LUShR => String::from_str("LUShR"),
            Instr::LXor => String::from_str("LXor"),
            Instr::MonitorEnter => String::from_str("MonitorEnter"),
            Instr::MonitorExit => String::from_str("MonitorExit"),
            Instr::MultiNewArray(a, b) => {
                let mut out = String::from_str("MultiNewArray(");
                push_decimal(&mut out, *a as u64);
                push_comma(&mut out);
                push_decimal(&mut out, *b as u64);
                push_char(&mut out, ')');
                out
            },
            Instr::New(a) => unsigned_field("New(", *a as u64),
            Instr::NewArray(a) => unsigned_field("NewArray(", *a as u64),
            Instr::Nop => String::from_str("Nop"),
            Instr::Pop => String::from_str("Pop"),
            Instr::Pop2 => String::from_str("Pop2"),
            Instr::PutField(a) => unsigned_field("PutField(", *a as u64),
            Instr::PutStatic(a) => unsigned_field("PutStatic(", *a as u64),
            Instr::Ret(a) => unsigned_field("Ret(", *a as u64),
            Instr::Return => String::from_str("Return"),
            Instr::SaLoad => String::from_str("SaLoad"),
            Instr::SaStore => String::from_str("SaStore"),
            Instr::SiPush(a) => signed_field("SiPush(", *a as i64),
            Instr::Swap => String::from_str("Swap"),
            Instr::TableSwitch(d, lo, hi, offs) => {
                let mut out = String::from_str("TableSwitch(");
                push_signed_decimal(&mut out, *d as i64);
                push_comma(&mut out);
                push_signed_decimal(&mut out, *lo as i64);
                push_comma(&mut out);
                push_signed_decimal(&mut out, *hi as i64);
                push_comma(&mut out);
                push_i32_list(&mut out, offs);
                push_char(&mut out, ')');
                out
            },
            Instr::WideILoad(a) => unsigned_field("WideILoad(", *a as u64),
            Instr::WideFLoad(a) => unsigned_field("WideFLoad(", *a as u64),
            Instr::WideALoad(a) => unsigned_field("WideALoad(", *a as u64),
            Instr::WideLLoad(a) => unsigned_field("WideLLoad(", *a as u64),
            Instr::WideDLoad(a) => unsigned_field("WideDLoad(", *a as u64),
            Instr::WideIStore(a) => unsigned_field("WideIStore(", *a as u64),
            Instr::WideFStore(a) => unsigned_field("WideFStore(", *a as u64),
            Instr::WideAStore(a) => unsigned_field("WideAStore(", *a as u64),
            Instr::WideLStore(a) => unsigned_field("WideLStore(", *a as u64),
            Instr::WideDStore(a) => unsigned_field("WideDStore(", *a as u64),
            Instr::WideRet(a) => unsigned_field("WideRet(", *a as u64),
            Instr::WideIInc(a, b) => {
                let mut out = String::from_str("WideIInc(");
                push_decimal(&mut out, *a as u64);
                push_comma(&mut out);
                push_signed_decimal(&mut out, *b as i64);
                push_char(&mut out, ')');
                out
            },
        }
    }
}

/// `ConstantIndex(n)`, as `Debug` shows an index.
pub open spec fn index_debug(i: ConstantIndex) -> Seq<char> {
    unsigned_field_text("ConstantIndex("@, i.0 as nat)
}

/// Appends the `Debug` text of an index.
fn push_index_debug(out: &mut String, i: ConstantIndex)
    ensures
        final(out)@ == old(out)@ + index_debug(i),
{
    let t = unsigned_field("ConstantIndex(", i.0 as u64);
    out.append(t.as_str());
}

/// The `Debug` text of a constant pool entry: the variant's name and the
/// entry's fields by name; a UTF-8 entry by its quoted string. The value of
/// a `float` or `double` entry is shown by `float_text`, which the caller
/// formats: floating point has no place in this library.
pub open spec fn spec_constant_debug(c: SpecConstant, float_text: Seq<char>) -> Seq<char> {
    match c {
        SpecConstant::Class(k) => "Class(ClassConstant { name_index: "@ + index_debug(k.name_index) + " })"@,
        SpecConstant::FieldRef(k) => "FieldRef(FieldRefConstant { class_index: "@ + index_debug(k.class_index) + ", name_and_type_index: "@ + index_debug(k.name_and_type_index) + " })"@,
        SpecConstant::MethodRef(k) => "MethodRef(MethodRefConstant { class_index: "@ + index_debug(k.class_index) + ", name_and_type_index: "@ + index_debug(k.name_and_type_index) + " })"@,
        SpecConstant::InterfaceMethodRef(k) => "InterfaceMethodRef(InterfaceMethodRefConstant { class_index: "@ + index_debug(k.class_index) + ", name_and_type_index: "@ + index_debug(k.name_and_type_index) + " })"@,
        SpecConstant::String(k) => "String(StringConstant { string_index: "@ + index_debug(k.string_index) + " })"@,
        SpecConstant::Integer(k) => "Integer(IntegerConstant { value: "@ + signed_decimal(k.value as int) + " })"@,
        SpecConstant::Float(_) => "Float(FloatConstant { value: "@ + float_text + " })"@,
        SpecConstant::Long(k) => "Long(LongConstant { value: "@ + signed_decimal(k.value as int) + " })"@,
        SpecConstant::Double(_) => "Double(DoubleConstant { value: "@ + float_text + " })"@,
        SpecConstant::NameAndType(k) => "NameAndType(NameAndTypeConstant { name_index: "@ + index_debug(k.name_index) + ", descriptor_index: "@ + index_debug(k.descriptor_index) + " })"@,
        SpecConstant::MethodHandle(k) => "MethodHandle(MethodHandleConstant { reference_kind: "@ + decimal(k.reference_kind as nat) + ", reference_index: "@ + index_debug(k.reference_index) + " })"@,
        SpecConstant::MethodType(k) => "MethodType(MethodTypeConstant { descriptor_index: "@ + index_debug(k.descriptor_index) + " })"@,
        SpecConstant::InvokeDynamic(k) => "InvokeDynamic(InvokeDynamicConstant { bootstrap_method_attr_index: "@ + index_debug(k.bootstrap_method_attr_index) + ", name_and_type_index: "@ + index_debug(k.name_and_type_index) + " })"@,
        SpecConstant::Utf8(t) => "Utf8("@ + str_debug_text(t) + seq![')'],
        SpecConstant::Unusable => "Unusable"@,
    }
}

impl Constant {
    /// The text that `Debug` gives the entry, with `float_text` standing for
    /// the value of a `float` or `double` entry.
    pub fn debug_text(&self, float_text: &str) -> (r: String)
        ensures
            r@ == spec_constant_debug(self@, float_text@),
    {
        match self {
            Constant::Class(k) => {
                let mut out = String::from_str("Class(ClassConstant { name_index: ");
                push_index_debug(&mut out, k.name_index);
                out.append(" })");
                out
            },
            Constant::FieldRef(k) => {
                let mut out = String::from_str("FieldRef(FieldRefConstant { class_index: ");
                push_index_debug(&mut out, k.class_index);
                out.append(", name_and_type_index: ");
                push_index_debug(&mut out, k.name_and_type_index);
                out.append(" })");
                out
            },
            Constant::MethodRef(k) => {
                let mut out = String::from_str("MethodRef(MethodRefConstant { class_index: ");
                push_index_debug(&mut out, k.class_index);
                out.append(", name_and_type_index: ");
                push_index_debug(&mut out, k.name_and_type_index);
                out.append(" })");
                out
            },
            Constant::InterfaceMethodRef(k) => {
                let mut out = String::from_str("InterfaceMethodRef(InterfaceMethodRefConstant { class_index: ");
                push_index_debug(&mut out, k.class_index);
                out.append(", name_and_type_index: ");
                push_index_debug(&mut out, k.name_and_type_index);
                out.append(" })");
                out
            },
            Constant::String(k) => {
                let mut out = String::from_str("String(StringConstant { string_index: ");
                push_index_debug(&mut out, k.string_index);
                out.append(" })");
                out
            },
            Constant::Integer(k) => {
                let mut out = String::from_str("Integer(IntegerConstant { value: ");
                push_signed_decimal(&mut out, k.value as i64);
                out.append(" })");
                out
            },
            Constant::Float(_) => {
                let mut out = String::from_str("Float(FloatConstant { value: ");
                out.append(float_text);
                out.append(" })");
                out
            },
            Constant::Long(k) => {
                let mut out = String::from_str("Long(LongConstant { value: ");
                push_signed_decimal(&mut out, k.value as i64);
                out.append(" })");
                out
            },
            Constant::Double(_) => {
                let mut out = String::from_str("Double(DoubleConstant { value: ");
                out.append(float_text);
                out.append(" })");
                out
            },
            Constant::NameAndType(k) => {
                let mut out = String::from_str("NameAndType(NameAndTypeConstant { name_index: ");
                push_index_debug(&mut out, k.name_index);
                out.append(", descriptor_index: ");
                push_index_debug(&mut out, k.descriptor_index);
                out.append(" })");
                out
            },
            Constant::MethodHandle(k) => {
                let mut out = String::from_str("MethodHandle(MethodHandleConstant { reference_kind: ");
                push_decimal(&mut out, k.reference_kind as u64);
                out.append(", reference_index: ");
                push_index_debug(&mut out, k.reference_index);
                out.append(" })");
                out
            },
            Constant::MethodType(k) => {
                let mut out = String::from_str("MethodType(MethodTypeConstant { descriptor_index: ");
                push_index_debug(&mut out, k.descriptor_index);
                out.append(" })");
                out
            },
            Constant::InvokeDynamic(k) => {
                let mut out = String::from_str("InvokeDynamic(InvokeDynamicConstant { bootstrap_method_attr_index: ");
                push_index_debug(&mut out, k.bootstrap_method_attr_index);
                out.append(", name_and_type_index: ");
                push_index_debug(&mut out, k.name_and_type_index);
                out.append(" })");
                out
            },
            Constant::Utf8(k) => {
                let mut out = String::from_str("Utf8(");
                let t = str_debug(k.string.as_str());
                out.append(t.as_str());
                push_char(&mut out, ')');
                out
            },
            Constant::Unusable => String::from_str("Unusable"),
        }
    }
}

} // verus!
