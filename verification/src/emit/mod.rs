use vstd::prelude::*;

use crate::codegen::asm_ast::{
    AsmFunction, AsmInstruction, AsmProgram, AsmStaticVar, AsmTopLevel, AsmType, BinaryOp, Condition,
    Operand, RegSize, Register, StaticConstant, UnaryOp,
};
use crate::codegen::asm_symtab::{AsmSymbol, AsmSymbolTable};
use crate::codegen::stack::legal;
use crate::text::{dec_str, i64_to_string, int_str, u64_to_string};
use crate::types::{StaticInit, StaticInitV};

verus! {

broadcast use vstd::std_specs::vec::group_vec_axioms, vstd::seq::group_seq_axioms;

/// Why a program could not be written out as assembly.
#[derive(Debug)]
pub enum EmissionError {
    UnresolvedPseudoRegister(String),
}

/// The instruction suffix of an operand type.
pub open spec fn suffix_text(t: AsmType) -> Seq<char> {
    match t {
        AsmType::Byte => "b"@,
        AsmType::Longword => "l"@,
        AsmType::Quadword => "q"@,
        AsmType::Double => "sd"@,
    }
}

fn suffix(t: AsmType) -> (r: &'static str)
    ensures
        r@ == suffix_text(t),
{
    match t {
        AsmType::Byte => "b",
        AsmType::Longword => "l",
        AsmType::Quadword => "q",
        AsmType::Double => "sd",
    }
}

/// The name of a register at a size.
pub open spec fn reg_text(reg: Register, size: RegSize) -> Seq<char> {
    let n: int = match size {
        RegSize::Byte => 0,
        RegSize::Long => 1,
        RegSize::Quad => 2,
    };
    match reg {
        Register::AX => if n == 0 { "al"@ } else if n == 1 { "eax"@ } else { "rax"@ },
        Register::CX => if n == 0 { "cl"@ } else if n == 1 { "ecx"@ } else { "rcx"@ },
        Register::DX => if n == 0 { "dl"@ } else if n == 1 { "edx"@ } else { "rdx"@ },
        Register::DI => if n == 0 { "dil"@ } else if n == 1 { "edi"@ } else { "rdi"@ },
        Register::SI => if n == 0 { "sil"@ } else if n == 1 { "esi"@ } else { "rsi"@ },
        Register::R8 => if n == 0 { "r8b"@ } else if n == 1 { "r8d"@ } else { "r8"@ },
        Register::R9 => if n == 0 { "r9b"@ } else if n == 1 { "r9d"@ } else { "r9"@ },
        Register::R10 => if n == 0 { "r10b"@ } else if n == 1 { "r10d"@ } else { "r10"@ },
        Register::R11 => if n == 0 { "r11b"@ } else if n == 1 { "r11d"@ } else { "r11"@ },
        Register::SP => "rsp"@,
        Register::XMM0 => "xmm0"@,
        Register::XMM1 => "xmm1"@,
        Register::XMM2 => "xmm2"@,
        Register::XMM3 => "xmm3"@,
        Register::XMM4 => "xmm4"@,
        Register::XMM5 => "xmm5"@,
        Register::XMM6 => "xmm6"@,
        Register::XMM7 => "xmm7"@,
        Register::XMM8 => "xmm8"@,
        Register::XMM9 => "xmm9"@,
        Register::XMM10 => "xmm10"@,
        Register::XMM11 => "xmm11"@,
        Register::XMM12 => "xmm12"@,
        Register::XMM13 => "xmm13"@,
        Register::XMM14 => "xmm14"@,
        Register::XMM15 => "xmm15"@,
    }
}

fn register_name(reg: Register, size: RegSize) -> (r: &'static str)
    ensures
        r@ == reg_text(reg, size),
{
    let n: u8 = match size {
        RegSize::Byte => 0,
        RegSize::Long => 1,
        RegSize::Quad => 2,
    };
    match reg {
        Register::AX => if n == 0 { "al" } else if n == 1 { "eax" } else { "rax" },
        Register::CX => if n == 0 { "cl" } else if n == 1 { "ecx" } else { "rcx" },
        Register::DX => if n == 0 { "dl" } else if n == 1 { "edx" } else { "rdx" },
        Register::DI => if n == 0 { "dil" } else if n == 1 { "edi" } else { "rdi" },
        Register::SI => if n == 0 { "sil" } else if n == 1 { "esi" } else { "rsi" },
        Register::R8 => if n == 0 { "r8b" } else if n == 1 { "r8d" } else { "r8" },
        Register::R9 => if n == 0 { "r9b" } else if n == 1 { "r9d" } else { "r9" },
        Register::R10 => if n == 0 { "r10b" } else if n == 1 { "r10d" } else { "r10" },
        Register::R11 => if n == 0 { "r11b" } else if n == 1 { "r11d" } else { "r11" },
        Register::SP => "rsp",
        Register::XMM0 => "xmm0",
        Register::XMM1 => "xmm1",
        Register::XMM2 => "xmm2",
        Register::XMM3 => "xmm3",
        Register::XMM4 => "xmm4",
        Register::XMM5 => "xmm5",
        Register::XMM6 => "xmm6",
        Register::XMM7 => "xmm7",
        Register::XMM8 => "xmm8",
        Register::XMM9 => "xmm9",
        Register::XMM10 => "xmm10",
        Register::XMM11 => "xmm11",
        Register::XMM12 => "xmm12",
        Register::XMM13 => "xmm13",
        Register::XMM14 => "xmm14",
        Register::XMM15 => "xmm15",
    }
}

/// The text of an operand, or the name of the pseudo-register it still is.
pub open spec fn operand_text(op: Operand) -> Result<Seq<char>, Seq<char>> {
    match op {
        Operand::Imm(v) => Ok("$"@ + int_str(v as int)),
        Operand::Reg(r, s) => Ok("%"@ + reg_text(r, s)),
        Operand::Stack(k) => Ok(int_str(k as int) + "(%rbp)"@),
        Operand::Data(id) => Ok(id@ + "(%rip)"@),
        Operand::Pseudo(id) => Err(id@),
    }
}

fn emit_operand(operand: &Operand) -> (r: Result<String, EmissionError>)
    ensures
        match operand_text(*operand) {
            Ok(t) => r is Ok && r->Ok_0@ == t,
            Err(id) => r matches Err(EmissionError::UnresolvedPseudoRegister(n)) && n@ == id,
        },
{
    match operand {
        Operand::Imm(value) => {
            let mut s = String::from_str("$");
            let v = i64_to_string(*value);
            s.append(v.as_str());
            Ok(s)
        },
        Operand::Reg(reg, regsize) => {
            let mut s = String::from_str("%");
            s.append(register_name(*reg, *regsize));
            Ok(s)
        },
        Operand::Stack(k) => {
            let mut s = i64_to_string(*k as i64);
            s.append("(%rbp)");
            Ok(s)
        },
        Operand::Data(ident) => {
            let mut s = ident.clone();
            s.append("(%rip)");
            Ok(s)
        },
        Operand::Pseudo(ident) => Err(EmissionError::UnresolvedPseudoRegister(ident.clone())),
    }
}

pub open spec fn cond_text(c: Condition) -> Seq<char> {
    match c {
        Condition::E => "e"@,
        Condition::NE => "ne"@,
        Condition::L => "l"@,
        Condition::LE => "le"@,
        Condition::G => "g"@,
        Condition::GE => "ge"@,
        Condition::A => "a"@,
        Condition::AE => "ae"@,
        Condition::B => "b"@,
        Condition::BE => "be"@,
        Condition::P => "p"@,
        Condition::NP => "np"@,
    }
}

/// Whether a conditional instruction is a jump or a set.
pub enum CondOp {
    Jmp,
    SetFlag,
}

fn emit_conditional_op(instruction: CondOp, condition: Condition) -> (r: String)
    ensures
        r@ == (if instruction is SetFlag { "set"@ } else { "j"@ }) + cond_text(condition),
{
    let mut s = match instruction {
        CondOp::SetFlag => String::from_str("set"),
        CondOp::Jmp => String::from_str("j"),
    };
    let second = match condition {
        Condition::E => "e",
        Condition::NE => "ne",
        Condition::L => "l",
        Condition::LE => "le",
        Condition::G => "g",
        Condition::GE => "ge",
        Condition::A => "a",
        Condition::AE => "ae",
        Condition::B => "b",
        Condition::BE => "be",
        Condition::P => "p",
        Condition::NP => "np",
    };
    s.append(second);
    s
}

pub open spec fn unary_text(op: UnaryOp) -> Seq<char> {
    match op {
        UnaryOp::Neg => "neg"@,
        UnaryOp::Not => "not"@,
    }
}

fn emit_unary_op(unary_op: UnaryOp) -> (r: &'static str)
    ensures
        r@ == unary_text(unary_op),
{
    match unary_op {
        UnaryOp::Neg => "neg",
        UnaryOp::Not => "not",
    }
}

/// The mnemonic of a binary operation on operands of type `t`.
pub open spec fn binary_text(op: BinaryOp, t: AsmType) -> Seq<char> {
    if t == AsmType::Double && op == BinaryOp::Mult {
        "mulsd"@
    } else if t == AsmType::Double && op == BinaryOp::BitXor {
        "xorpd"@
    } else {
        (match op {
            BinaryOp::Add => "add"@,
            BinaryOp::Sub => "sub"@,
            BinaryOp::Mult => "imul"@,
            BinaryOp::DivDouble => "div"@,
            BinaryOp::Sal => "sal"@,
            BinaryOp::Sar => "sar"@,
            BinaryOp::Shl => "shl"@,
            BinaryOp::Shr => "shr"@,
            BinaryOp::BitAnd => "and"@,
            BinaryOp::BitOr => "or"@,
            BinaryOp::BitXor => "xor"@,
        }) + suffix_text(t)
    }
}

fn emit_binary_op(binary_op: BinaryOp, t: AsmType) -> (r: String)
    ensures
        r@ == binary_text(binary_op, t),
{
    if t == AsmType::Double && binary_op == BinaryOp::Mult {
        return String::from_str("mulsd");
    }
    if t == AsmType::Double && binary_op == BinaryOp::BitXor {
        return String::from_str("xorpd");
    }
    let mut s = String::from_str(
        match binary_op {
            BinaryOp::Add => "add",
            BinaryOp::Sub => "sub",
            BinaryOp::Mult => "imul",
            BinaryOp::DivDouble => "div",
            BinaryOp::Sal => "sal",
            BinaryOp::Sar => "sar",
            BinaryOp::Shl => "shl",
            BinaryOp::Shr => "shr",
            BinaryOp::BitAnd => "and",
            BinaryOp::BitOr => "or",
            BinaryOp::BitXor => "xor",
        },
    );
    s.append(suffix(t));
    s
}

/// A line with a mnemonic and one operand.
pub open spec fn line1(name: Seq<char>, a: Seq<char>) -> Seq<char> {
    "\t"@ + name + "\t"@ + a + "\n"@
}

/// A line with a mnemonic and two operands.
pub open spec fn line2(name: Seq<char>, a: Seq<char>, b: Seq<char>) -> Seq<char> {
    "\t"@ + name + "\t"@ + a + ",\t"@ + b + "\n"@
}

fn push_line1(output: &mut String, name: &str, a: &String)
    ensures
        final(output)@ == old(output)@ + line1(name@, a@),
{
    output.append("\t");
    output.append(name);
    output.append("\t");
    output.append(a.as_str());
    output.append("\n");
    assert(final(output)@ =~= old(output)@ + line1(name@, a@));
}

fn push_line2(output: &mut String, name: &str, a: &String, b: &String)
    ensures
        final(output)@ == old(output)@ + line2(name@, a@, b@),
{
    output.append("\t");
    output.append(name);
    output.append("\t");
    output.append(a.as_str());
    output.append(",\t");
    output.append(b.as_str());
    output.append("\n");
    assert(final(output)@ =~= old(output)@ + line2(name@, a@, b@));
}

/// The instructions emission knows how to write: a call names a function of
/// the symbol table, and no instruction is one that stack-slot assignment
/// removes or that code generation never makes.
pub open spec fn emittable(inst: AsmInstruction, symbols: AsmSymbolTable) -> bool {
    match inst {
        AsmInstruction::MovZeroExtend(..) => false,
        AsmInstruction::Cdq(t) => t != AsmType::Double,
        AsmInstruction::Call(f) => symbols.spec_get(f@) matches Some(AsmSymbol::FuncEntry(_)),
        _ => true,
    }
}

/// The two operands' texts, or the first unresolved pseudo-register.
pub open spec fn two_texts(a: Operand, b: Operand) -> Result<(Seq<char>, Seq<char>), Seq<char>> {
    match operand_text(a) {
        Err(id) => Err(id),
        Ok(x) => match operand_text(b) {
            Err(id) => Err(id),
            Ok(y) => Ok((x, y)),
        },
    }
}

/// The assembly text of one instruction, or the first pseudo-register it still holds.
pub open spec fn inst_text(inst: AsmInstruction, symbols: AsmSymbolTable) -> Result<Seq<char>, Seq<char>> {
    match inst {
        AsmInstruction::Mov(t, s, d) => match two_texts(s, d) {
            Err(id) => Err(id),
            Ok((x, y)) => Ok(line2(if t == AsmType::Double { "movsd"@ } else { "mov"@ + suffix_text(t) }, x, y)),
        },
        AsmInstruction::Movsx(s, d) => match two_texts(s, d) {
            Err(id) => Err(id),
            Ok((x, y)) => Ok(line2("movslq"@, x, y)),
        },
        AsmInstruction::Unary(op, t, d) => match operand_text(d) {
            Err(id) => Err(id),
            Ok(x) => Ok(line1(unary_text(op) + suffix_text(t), x)),
        },
        AsmInstruction::Binary(op, t, s, d) => match two_texts(s, d) {
            Err(id) => Err(id),
            Ok((x, y)) => Ok(line2(binary_text(op, t), x, y)),
        },
        AsmInstruction::Cmp(t, s, d) => match two_texts(s, d) {
            Err(id) => Err(id),
            Ok((x, y)) => Ok(line2(if t == AsmType::Double { "comisd"@ } else { "cmp"@ + suffix_text(t) }, x, y)),
        },
        AsmInstruction::SetCC(c, d) => match operand_text(d) {
            Err(id) => Err(id),
            Ok(x) => Ok(line1("set"@ + cond_text(c), x)),
        },
        AsmInstruction::JmpCC(c, l) => Ok("\t"@ + "j"@ + cond_text(c) + "\t.L"@ + l@ + "\n"@),
        AsmInstruction::Jmp(l) => Ok("\tjmp\t.L"@ + l@ + "\n"@),
        AsmInstruction::Label(l) => Ok(".L"@ + l@ + ":\n"@),
        AsmInstruction::Idiv(t, s) => match operand_text(s) {
            Err(id) => Err(id),
            Ok(x) => Ok(line1("idiv"@ + suffix_text(t), x)),
        },
        AsmInstruction::Div(t, s) => match operand_text(s) {
            Err(id) => Err(id),
            Ok(x) => Ok(line1("div"@ + suffix_text(t), x)),
        },
        AsmInstruction::Cdq(t) => Ok(
            if t == AsmType::Byte {
                "\tcbtw\n"@
            } else if t == AsmType::Longword {
                "\tcltd\n"@
            } else {
                "\tcqto\n"@
            },
        ),
        AsmInstruction::Ret => Ok("\tmovq\t%rbp,\t%rsp\n"@ + "\tpopq\t%rbp\n"@ + "\tret\n"@),
        AsmInstruction::Push(v) => match operand_text(v) {
            Err(id) => Err(id),
            Ok(x) => Ok(line1("pushq"@, x)),
        },
        AsmInstruction::Call(f) => Ok(
            "\tcall\t"@ + f@ + (if symbols.spec_get(f@) == Some(AsmSymbol::FuncEntry(true)) {
                Seq::<char>::empty()
            } else {
                "@PLT"@
            }) + "\n"@,
        ),
        AsmInstruction::Cvttsd2si(t, s, d) => match two_texts(s, d) {
            Err(id) => Err(id),
            Ok((x, y)) => Ok(line2("cvttsd2si"@ + suffix_text(t), x, y)),
        },
        AsmInstruction::Cvtsi2sd(t, s, d) => match two_texts(s, d) {
            Err(id) => Err(id),
            Ok((x, y)) => Ok(line2("cvtsi2sd"@ + suffix_text(t), x, y)),
        },
        AsmInstruction::MovZeroExtend(..) => Ok(Seq::<char>::empty()),
    }
}

/// The texts of two operands.
fn emit_two(a: &Operand, b: &Operand) -> (r: Result<(String, String), EmissionError>)
    ensures
        match two_texts(*a, *b) {
            Ok((x, y)) => r is Ok && r->Ok_0.0@ == x && r->Ok_0.1@ == y,
            Err(id) => r matches Err(EmissionError::UnresolvedPseudoRegister(n)) && n@ == id,
        },
{
    let x = match emit_operand(a) {
        Ok(x) => x,
        Err(e) => return Err(e),
    };
    let y = match emit_operand(b) {
        Ok(y) => y,
        Err(e) => return Err(e),
    };
    Ok((x, y))
}

/// A mnemonic followed by the suffix of `t`.
fn with_suffix(name: &str, t: AsmType) -> (r: String)
    ensures
        r@ == name@ + suffix_text(t),
{
    let mut s = String::from_str(name);
    s.append(suffix(t));
    s
}

/// Writes one instruction.
fn emit_instruction(instruction: &AsmInstruction, output: &mut String, symbols: &AsmSymbolTable) -> (r: Result<(), EmissionError>)
    requires
        emittable(*instruction, *symbols),
    ensures
        match inst_text(*instruction, *symbols) {
            Ok(t) => r is Ok && final(output)@ == old(output)@ + t,
            Err(id) => r matches Err(EmissionError::UnresolvedPseudoRegister(n)) && n@ == id && final(output)@
                == old(output)@,
        },
{
    match instruction {
        AsmInstruction::Mov(t, src, dst) => {
            let (s, d) = match emit_two(src, dst) {
                Ok(p) => p,
                Err(e) => return Err(e),
            };
            let name = if *t == AsmType::Double {
                String::from_str("movsd")
            } else {
                with_suffix("mov", *t)
            };
            push_line2(output, name.as_str(), &s, &d);
        },
        AsmInstruction::Movsx(src, dst) => {
            let (s, d) = match emit_two(src, dst) {
                Ok(p) => p,
                Err(e) => return Err(e),
            };
            push_line2(output, "movslq", &s, &d);
        },
        AsmInstruction::Unary(unary_op, t, operand) => {
            let d = match emit_operand(operand) {
                Ok(x) => x,
                Err(e) => return Err(e),
            };
            let name = with_suffix(emit_unary_op(*unary_op), *t);
            push_line1(output, name.as_str(), &d);
        },
        AsmInstruction::Binary(binary_op, t, operand1, operand2) => {
            let (s, d) = match emit_two(operand1, operand2) {
                Ok(p) => p,
                Err(e) => return Err(e),
            };
            let name = emit_binary_op(*binary_op, *t);
            push_line2(output, name.as_str(), &s, &d);
        },
        AsmInstruction::Cmp(t, operand1, operand2) => {
            let (s, d) = match emit_two(operand1, operand2) {
                Ok(p) => p,
                Err(e) => return Err(e),
            };
            let name = if *t == AsmType::Double {
                String::from_str("comisd")
            } else {
                with_suffix("cmp", *t)
            };
            push_line2(output, name.as_str(), &s, &d);
        },
        AsmInstruction::SetCC(cond_code, dst) => {
            let d = match emit_operand(dst) {
                Ok(x) => x,
                Err(e) => return Err(e),
            };
            let op = emit_conditional_op(CondOp::SetFlag, *cond_code);
            push_line1(output, op.as_str(), &d);
        },
        AsmInstruction::JmpCC(cond_code, label) => {
            let op = emit_conditional_op(CondOp::Jmp, *cond_code);
            output.append("\t");
            output.append(op.as_str());
            output.append("\t.L");
            output.append(label.as_str());
            output.append("\n");
            assert(final(output)@ =~= old(output)@ + ("\t"@ + "j"@ + cond_text(*cond_code) + "\t.L"@ + label@ + "\n"@));
        },
        AsmInstruction::Jmp(label) => {
            output.append("\tjmp\t.L");
            output.append(label.as_str());
            output.append("\n");
            assert(final(output)@ =~= old(output)@ + ("\tjmp\t.L"@ + label@ + "\n"@));
        },
        AsmInstruction::Label(label) => {
            output.append(".L");
            output.append(label.as_str());
            output.append(":\n");
            assert(final(output)@ =~= old(output)@ + (".L"@ + label@ + ":\n"@));
        },
        AsmInstruction::Idiv(t, operand) => {
            let x = match emit_operand(operand) {
                Ok(x) => x,
                Err(e) => return Err(e),
            };
            let name = with_suffix("idiv", *t);
            push_line1(output, name.as_str(), &x);
        },
        AsmInstruction::Div(t, operand) => {
            let x = match emit_operand(operand) {
                Ok(x) => x,
                Err(e) => return Err(e),
            };
            let name = with_suffix("div", *t);
            push_line1(output, name.as_str(), &x);
        },
        AsmInstruction::Cdq(t) => {
            if *t == AsmType::Byte {
                output.append("\tcbtw\n");
            } else if *t == AsmType::Longword {
                output.append("\tcltd\n");
            } else {
                output.append("\tcqto\n");
            }
        },
        AsmInstruction::Ret => {
            output.append("\tmovq\t%rbp,\t%rsp\n");
            output.append("\tpopq\t%rbp\n");
            output.append("\tret\n");
            assert(final(output)@ =~= old(output)@ + ("\tmovq\t%rbp,\t%rsp\n"@ + "\tpopq\t%rbp\n"@ + "\tret\n"@));
        },
        AsmInstruction::Push(op) => {
            let x = match emit_operand(op) {
                Ok(x) => x,
                Err(e) => return Err(e),
            };
            push_line1(output, "pushq", &x);
        },
        AsmInstruction::Call(id) => {
            let defined = match symbols.get(id) {
                Some(AsmSymbol::FuncEntry(d)) => *d,
                _ => vstd::pervasive::unreached(),
            };
            output.append("\tcall\t");
            output.append(id.as_str());
            if !defined {
                output.append("@PLT");
            }
            output.append("\n");
            assert(final(output)@ =~= old(output)@ + ("\tcall\t"@ + id@ + (if symbols.spec_get(id@) == Some(
                AsmSymbol::FuncEntry(true),
            ) {
                Seq::<char>::empty()
            } else {
                "@PLT"@
            }) + "\n"@));
        },
        AsmInstruction::Cvttsd2si(t, src, dst) => {
            let (s, d) = match emit_two(src, dst) {
                Ok(p) => p,
                Err(e) => return Err(e),
            };
            let name = with_suffix("cvttsd2si", *t);
            push_line2(output, name.as_str(), &s, &d);
        },
        AsmInstruction::Cvtsi2sd(t, src, dst) => {
            let (s, d) = match emit_two(src, dst) {
                Ok(p) => p,
                Err(e) => return Err(e),
            };
            let name = with_suffix("cvtsi2sd", *t);
            push_line2(output, name.as_str(), &s, &d);
        },
        AsmInstruction::MovZeroExtend(..) => vstd::pervasive::unreached(),
    }
    Ok(())
}

/// The text of a sequence of instructions, or the first pseudo-register met.
pub open spec fn insts_text(body: Seq<AsmInstruction>, symbols: AsmSymbolTable) -> Result<Seq<char>, Seq<char>>
    decreases body.len(),
{
    if body.len() == 0 {
        Ok(Seq::empty())
    } else {
        match insts_text(body.drop_last(), symbols) {
            Err(id) => Err(id),
            Ok(prefix) => match inst_text(body.last(), symbols) {
                Err(id) => Err(id),
                Ok(t) => Ok(prefix + t),
            },
        }
    }
}

/// The text of a function: its label, the prologue, then its instructions.
pub open spec fn function_text(f: AsmFunction, symbols: AsmSymbolTable) -> Result<Seq<char>, Seq<char>> {
    let header = (if f.global { "\t.globl "@ + f.identifier@ + "\n"@ } else { Seq::<char>::empty() })
        + "\t.text\n"@ + f.identifier@ + ":\n"@ + "\tpushq\t%rbp\n"@ + "\tmovq\t%rsp,\t%rbp\n"@;
    match insts_text(f.body@, symbols) {
        Err(id) => Err(id),
        Ok(t) => Ok(header + t),
    }
}

/// The directive that lays out an initial value.
pub open spec fn init_text(init: StaticInitV) -> Seq<char> {
    match init {
        StaticInitV::IntInit(i) => if i == 0 { ".zero 4"@ } else { ".long "@ + int_str(i as int) },
        StaticInitV::LongInit(i) => if i == 0 { ".zero 8"@ } else { ".quad "@ + int_str(i as int) },
        StaticInitV::UIntInit(i) => if i == 0 { ".zero 4"@ } else { ".long "@ + dec_str(i as nat) },
        StaticInitV::ULongInit(i) => if i == 0 { ".zero 8"@ } else { ".quad "@ + dec_str(i as nat) },
        StaticInitV::DoubleInit(d) => ".double "@ + d,
    }
}

fn emit_staticinit(init: &StaticInit) -> (r: String)
    ensures
        r@ == init_text(init@),
{
    match init {
        StaticInit::IntInit(i) => if *i == 0 {
            String::from_str(".zero 4")
        } else {
            let mut s = String::from_str(".long ");
            s.append(i64_to_string(*i as i64).as_str());
            s
        },
        StaticInit::LongInit(i) => if *i == 0 {
            String::from_str(".zero 8")
        } else {
            let mut s = String::from_str(".quad ");
            s.append(i64_to_string(*i).as_str());
            s
        },
        StaticInit::UIntInit(i) => if *i == 0 {
            String::from_str(".zero 4")
        } else {
            let mut s = String::from_str(".long ");
            s.append(u64_to_string(*i as u64).as_str());
            s
        },
        StaticInit::ULongInit(i) => if *i == 0 {
            String::from_str(".zero 8")
        } else {
            let mut s = String::from_str(".quad ");
            s.append(u64_to_string(*i).as_str());
            s
        },
        StaticInit::DoubleInit(d) => {
            let mut s = String::from_str(".double ");
            s.append(d.as_str());
            s
        },
    }
}

/// The text of a static variable.
pub open spec fn var_text(v: AsmStaticVar) -> Seq<char> {
    (if v.global { "\t.globl "@ + v.identifier@ + "\n"@ } else { Seq::<char>::empty() }) + "\t.data\n"@
        + "\t.align "@ + dec_str(v.alignment as nat) + "\n"@ + v.identifier@ + ":\n"@ + "\t"@ + init_text(v.init@)
        + "\n"@
}

fn emit_var(var: &AsmStaticVar, output: &mut String)
    ensures
        final(output)@ == old(output)@ + var_text(*var),
{
    if var.global {
        output.append("\t.globl ");
        output.append(var.identifier.as_str());
        output.append("\n");
    }
    output.append("\t.data\n");
    output.append("\t.align ");
    output.append(u64_to_string(var.alignment as u64).as_str());
    output.append("\n");
    output.append(var.identifier.as_str());
    output.append(":\n");
    output.append("\t");
    output.append(emit_staticinit(&var.init).as_str());
    output.append("\n");
    assert(final(output)@ =~= old(output)@ + var_text(*var));
}

/// The text of a read-only constant.
pub open spec fn constant_text(c: StaticConstant) -> Seq<char> {
    "\t.section .rodata\n"@ + "\t.align "@ + dec_str(c.alignment as nat) + "\n"@ + c.identifier@ + ":\n"@ + "\t"@
        + init_text(c.init@) + "\n"@
}

fn emit_constant(c: &StaticConstant, output: &mut String)
    ensures
        final(output)@ == old(output)@ + constant_text(*c),
{
    output.append("\t.section .rodata\n");
    output.append("\t.align ");
    output.append(u64_to_string(c.alignment as u64).as_str());
    output.append("\n");
    output.append(c.identifier.as_str());
    output.append(":\n");
    output.append("\t");
    output.append(emit_staticinit(&c.init).as_str());
    output.append("\n");
    assert(final(output)@ =~= old(output)@ + constant_text(*c));
}

/// Every instruction of a function can be written.
pub open spec fn function_emittable(f: AsmFunction, symbols: AsmSymbolTable) -> bool {
    forall|i: int| 0 <= i < f.body@.len() ==> emittable(#[trigger] f.body@[i], symbols)
}

fn emit_function(function: &AsmFunction, output: &mut String, symbols: &AsmSymbolTable) -> (r: Result<(), EmissionError>)
    requires
        function_emittable(*function, *symbols),
    ensures
        match function_text(*function, *symbols) {
            Ok(t) => r is Ok && final(output)@ == old(output)@ + t,
            Err(id) => r matches Err(EmissionError::UnresolvedPseudoRegister(n)) && n@ == id,
        },
{
    if function.global {
        output.append("\t.globl ");
        output.append(function.identifier.as_str());
        output.append("\n");
    }
    output.append("\t.text\n");
    output.append(function.identifier.as_str());
    output.append(":\n");
    output.append("\tpushq\t%rbp\n");
    output.append("\tmovq\t%rsp,\t%rbp\n");
    let ghost header = output@.subrange(old(output)@.len() as int, output@.len() as int);
    assert(output@ =~= old(output)@ + header);
    assert(header =~= (if function.global { "\t.globl "@ + function.identifier@ + "\n"@ } else { Seq::<char>::empty() })
        + "\t.text\n"@ + function.identifier@ + ":\n"@ + "\tpushq\t%rbp\n"@ + "\tmovq\t%rsp,\t%rbp\n"@);
    let mut i: usize = 0;
    while i < function.body.len()
        invariant
            i <= function.body@.len(),
            function_emittable(*function, *symbols),
            insts_text(function.body@.subrange(0, i as int), *symbols) is Ok,
            output@ == old(output)@ + header + insts_text(function.body@.subrange(0, i as int), *symbols)->Ok_0,
        decreases function.body@.len() - i,
    {
        let ghost prefix = function.body@.subrange(0, i as int);
        let ghost next = function.body@.subrange(0, i + 1);
        assert(next.drop_last() =~= prefix);
        assert(next.last() == function.body@[i as int]);
        match emit_instruction(&function.body[i], output, symbols) {
            Ok(()) => {},
            Err(e) => {
                proof {
                    lemma_insts_text_err(function.body@, i as int, *symbols);
                }
                return Err(e);
            },
        }
        assert(output@ =~= old(output)@ + header + insts_text(next, *symbols)->Ok_0);
        i = i + 1;
    }
    assert(function.body@.subrange(0, i as int) =~= function.body@);
    Ok(())
}

/// An error at instruction `i`, after a prefix that writes, is the error of the whole list.
proof fn lemma_insts_text_err(body: Seq<AsmInstruction>, i: int, symbols: AsmSymbolTable)
    requires
        0 <= i < body.len(),
        insts_text(body.subrange(0, i), symbols) is Ok,
        inst_text(body[i], symbols) is Err,
    ensures
        insts_text(body, symbols) == Err::<Seq<char>, Seq<char>>(inst_text(body[i], symbols)->Err_0),
    decreases body.len(),
{
    assert(body.subrange(0, i + 1).drop_last() =~= body.subrange(0, i));
    if i + 1 < body.len() {
        assert(body.drop_last().subrange(0, i) =~= body.subrange(0, i));
        assert(body.drop_last()[i] == body[i]);
        lemma_insts_text_err(body.drop_last(), i, symbols);
    } else {
        assert(body.drop_last() =~= body.subrange(0, i));
    }
}

/// The text of the top-level items.
pub open spec fn items_text(items: Seq<AsmTopLevel>, symbols: AsmSymbolTable) -> Result<Seq<char>, Seq<char>>
    decreases items.len(),
{
    if items.len() == 0 {
        Ok(Seq::empty())
    } else {
        match items_text(items.drop_last(), symbols) {
            Err(id) => Err(id),
            Ok(prefix) => match items.last() {
                AsmTopLevel::F(f) => match function_text(f, symbols) {
                    Err(id) => Err(id),
                    Ok(t) => Ok(prefix + t),
                },
                AsmTopLevel::V(v) => Ok(prefix + var_text(v)),
                AsmTopLevel::C(c) => Ok(prefix + constant_text(c)),
            },
        }
    }
}

/// The text of a whole program.
pub open spec fn program_text(items: Seq<AsmTopLevel>, symbols: AsmSymbolTable) -> Result<Seq<char>, Seq<char>> {
    match items_text(items, symbols) {
        Err(id) => Err(id),
        Ok(t) => Ok(t + "\n.section .note.GNU-stack,\"\",@progbits"@),
    }
}

/// Every function of the program can be written.
pub open spec fn program_emittable(items: Seq<AsmTopLevel>, symbols: AsmSymbolTable) -> bool {
    forall|i: int| 0 <= i < items.len() ==> (#[trigger] items[i] matches AsmTopLevel::F(f) ==> function_emittable(f, symbols))
}

proof fn lemma_items_text_err(items: Seq<AsmTopLevel>, i: int, symbols: AsmSymbolTable, id: Seq<char>)
    requires
        0 <= i < items.len(),
        items_text(items.subrange(0, i), symbols) is Ok,
        items[i] matches AsmTopLevel::F(f) && function_text(f, symbols) == Err::<Seq<char>, Seq<char>>(id),
    ensures
        items_text(items, symbols) == Err::<Seq<char>, Seq<char>>(id),
    decreases items.len(),
{
    assert(items.subrange(0, i + 1).drop_last() =~= items.subrange(0, i));
    if i + 1 < items.len() {
        assert(items.drop_last().subrange(0, i) =~= items.subrange(0, i));
        assert(items.drop_last()[i] == items[i]);
        lemma_items_text_err(items.drop_last(), i, symbols, id);
    } else {
        assert(items.drop_last() =~= items.subrange(0, i));
    }
}

/// The assembly text of a program, or the first pseudo-register left in it.
pub fn emit_program(program: AsmProgram, symbols: &AsmSymbolTable) -> (r: Result<String, EmissionError>)
    requires
        program_emittable(program.top_level@, *symbols),
    ensures
        match program_text(program.top_level@, *symbols) {
            Ok(t) => r is Ok && r->Ok_0@ == t,
            Err(id) => r matches Err(EmissionError::UnresolvedPseudoRegister(n)) && n@ == id,
        },
{
    let items = &program.top_level;
    let mut output = String::new();
    let mut i: usize = 0;
    while i < items.len()
        invariant
            i <= items@.len(),
            items@ == program.top_level@,
            program_emittable(items@, *symbols),
            items_text(items@.subrange(0, i as int), *symbols) is Ok,
            output@ == items_text(items@.subrange(0, i as int), *symbols)->Ok_0,
        decreases items@.len() - i,
    {
        let ghost prefix = items@.subrange(0, i as int);
        let ghost next = items@.subrange(0, i + 1);
        assert(next.drop_last() =~= prefix);
        assert(next.last() == items@[i as int]);
        let ghost before = output@;
        match &items[i] {
            AsmTopLevel::F(f) => {
                assert(items@[i as int] matches AsmTopLevel::F(g) && g == *f);
                match emit_function(f, &mut output, symbols) {
                    Ok(()) => {},
                    Err(e) => {
                        proof {
                            lemma_items_text_err(items@, i as int, *symbols, function_text(*f, *symbols)->Err_0);
                        }
                        return Err(e);
                    },
                }
            },
            AsmTopLevel::V(v) => emit_var(v, &mut output),
            AsmTopLevel::C(c) => emit_constant(c, &mut output),
        }
        i = i + 1;
    }
    assert(items@.subrange(0, i as int) =~= items@);
    output.append("\n.section .note.GNU-stack,\"\",@progbits");
    Ok(output)
}

/// An instruction that stack-slot assignment produced holds no
/// pseudo-register, so it is written without error.
pub proof fn lemma_legal_inst_emits(inst: AsmInstruction, symbols: AsmSymbolTable)
    requires
        legal(inst),
    ensures
        inst_text(inst, symbols) is Ok,
{
}

/// A function body that stack-slot assignment produced is written without error.
pub proof fn lemma_legal_body_emits(body: Seq<AsmInstruction>, symbols: AsmSymbolTable)
    requires
        forall|i: int| 0 <= i < body.len() ==> legal(#[trigger] body[i]),
    ensures
        insts_text(body, symbols) is Ok,
    decreases body.len(),
{
    if body.len() > 0 {
        lemma_legal_body_emits(body.drop_last(), symbols);
        lemma_legal_inst_emits(body.last(), symbols);
    }
}


/// Whether [`emit_program`] can write `program` with the table `symbols`
/// (see [`program_emittable`]).
pub fn emit_ready(program: &AsmProgram, symbols: &AsmSymbolTable) -> (r: bool)
    ensures
        r == program_emittable(program.top_level@, *symbols),
{
    let items = &program.top_level;
    let mut k: usize = 0;
    while k < items.len()
        invariant
            k <= items@.len(),
            items == &program.top_level,
            forall|j: int| 0 <= j < k ==> ((#[trigger] items@[j]) matches AsmTopLevel::F(f) ==> function_emittable(f, *symbols)),
        decreases items@.len() - k,
    {
        match &items[k] {
            AsmTopLevel::F(f) => {
                let mut i: usize = 0;
                while i < f.body.len()
                    invariant
                        i <= f.body@.len(),
                        k < items@.len(),
                        items == &program.top_level,
                        items@[k as int] == AsmTopLevel::F(*f),
                        forall|j: int| 0 <= j < i ==> emittable(#[trigger] f.body@[j], *symbols),
                    decreases f.body@.len() - i,
                {
                    let ok = match &f.body[i] {
                        AsmInstruction::MovZeroExtend(..) => false,
                        AsmInstruction::Cdq(t) => *t != AsmType::Double,
                        AsmInstruction::Call(name) => match symbols.get(name) {
                            Some(AsmSymbol::FuncEntry(_)) => true,
                            _ => false,
                        },
                        _ => true,
                    };
                    if !ok {
                        assert(!emittable(f.body@[i as int], *symbols));
                        assert(!function_emittable(*f, *symbols));
                        return false;
                    }
                    i = i + 1;
                }
            },
            _ => {},
        }
        k = k + 1;
    }
    true
}

} // verus!

verus! {

/// Law: each condition is written with its own mnemonic suffix, so `setl`
/// and `setle` (and the other pairs) never stand for the same test.
pub proof fn lemma_cond_text_distinct(c1: Condition, c2: Condition)
    ensures
        c1 != c2 ==> cond_text(c1) != cond_text(c2),
{
    reveal_strlit("e");
    reveal_strlit("ne");
    reveal_strlit("l");
    reveal_strlit("le");
    reveal_strlit("g");
    reveal_strlit("ge");
    reveal_strlit("a");
    reveal_strlit("ae");
    reveal_strlit("b");
    reveal_strlit("be");
    reveal_strlit("p");
    reveal_strlit("np");
    if c1 != c2 && cond_text(c1).len() == cond_text(c2).len() {
        if cond_text(c1).len() == 1 {
            assert(cond_text(c1)[0] != cond_text(c2)[0]);
        } else {
            assert(cond_text(c1)[0] != cond_text(c2)[0] || cond_text(c1)[1] != cond_text(c2)[1]);
        }
    }
}

/// Law: the two unary operations are written with different mnemonics.
pub proof fn lemma_unary_text_distinct()
    ensures
        unary_text(UnaryOp::Neg) != unary_text(UnaryOp::Not),
{
    reveal_strlit("neg");
    reveal_strlit("not");
    assert(unary_text(UnaryOp::Neg)[1] != unary_text(UnaryOp::Not)[1]);
}

/// Law: on operands of one integer type, distinct binary operations are
/// written with distinct mnemonics.
pub proof fn lemma_binary_text_distinct(op1: BinaryOp, op2: BinaryOp, t: AsmType)
    requires
        t != AsmType::Double,
    ensures
        op1 != op2 ==> binary_text(op1, t) != binary_text(op2, t),
{
    reveal_strlit("add");
    reveal_strlit("sub");
    reveal_strlit("imul");
    reveal_strlit("div");
    reveal_strlit("sal");
    reveal_strlit("sar");
    reveal_strlit("shl");
    reveal_strlit("shr");
    reveal_strlit("and");
    reveal_strlit("or");
    reveal_strlit("xor");
    if op1 != op2 && binary_text(op1, t) == binary_text(op2, t) {
        let b1 = match op1 {
            BinaryOp::Add => "add"@,
            BinaryOp::Sub => "sub"@,
            BinaryOp::Mult => "imul"@,
            BinaryOp::DivDouble => "div"@,
            BinaryOp::Sal => "sal"@,
            BinaryOp::Sar => "sar"@,
            BinaryOp::Shl => "shl"@,
            BinaryOp::Shr => "shr"@,
            BinaryOp::BitAnd => "and"@,
            BinaryOp::BitOr => "or"@,
            BinaryOp::BitXor => "xor"@,
        };
        let b2 = match op2 {
            BinaryOp::Add => "add"@,
            BinaryOp::Sub => "sub"@,
            BinaryOp::Mult => "imul"@,
            BinaryOp::DivDouble => "div"@,
            BinaryOp::Sal => "sal"@,
            BinaryOp::Sar => "sar"@,
            BinaryOp::Shl => "shl"@,
            BinaryOp::Shr => "shr"@,
            BinaryOp::BitAnd => "and"@,
            BinaryOp::BitOr => "or"@,
            BinaryOp::BitXor => "xor"@,
        };
        assert(binary_text(op1, t) == b1 + suffix_text(t));
        assert(binary_text(op2, t) == b2 + suffix_text(t));
        assert(b1 =~= (b1 + suffix_text(t)).subrange(0, b1.len() as int));
        assert(b2 =~= (b2 + suffix_text(t)).subrange(0, b2.len() as int));
        assert(b1.len() == b2.len());
        assert(b1 == b2);
        if b1.len() == 3 {
            assert(b1[0] != b2[0] || b1[1] != b2[1] || b1[2] != b2[2]);
        }
    }
}

/// The general-purpose registers.
pub open spec fn is_general(r: Register) -> bool {
    r is AX || r is CX || r is DX || r is DI || r is SI || r is R8 || r is R9 || r is R10 || r is R11
}

/// Law: at one size, distinct general-purpose registers have distinct names.
pub proof fn lemma_reg_text_distinct(r1: Register, r2: Register, size: RegSize)
    requires
        is_general(r1),
        is_general(r2),
        r1 != r2,
    ensures
        reg_text(r1, size) != reg_text(r2, size),
{
    reveal_strlit("al");
    reveal_strlit("eax");
    reveal_strlit("rax");
    reveal_strlit("cl");
    reveal_strlit("ecx");
    reveal_strlit("rcx");
    reveal_strlit("dl");
    reveal_strlit("edx");
    reveal_strlit("rdx");
    reveal_strlit("dil");
    reveal_strlit("edi");
    reveal_strlit("rdi");
    reveal_strlit("sil");
    reveal_strlit("esi");
    reveal_strlit("rsi");
    reveal_strlit("r8b");
    reveal_strlit("r8d");
    reveal_strlit("r8");
    reveal_strlit("r9b");
    reveal_strlit("r9d");
    reveal_strlit("r9");
    reveal_strlit("r10b");
    reveal_strlit("r10d");
    reveal_strlit("r10");
    reveal_strlit("r11b");
    reveal_strlit("r11d");
    reveal_strlit("r11");
    reveal_strlit("rsp");
    let t1 = reg_text(r1, size);
    let t2 = reg_text(r2, size);
    if t1.len() == t2.len() {
        assert(t1[0] != t2[0] || t1[1] != t2[1] || (t1.len() > 2 && t1[2] != t2[2]) || (t1.len() > 3 && t1[3] != t2[3]));
    }
}

/// Law: each operand type has its own instruction suffix.
pub proof fn lemma_suffix_text_distinct(t1: AsmType, t2: AsmType)
    ensures
        t1 != t2 ==> suffix_text(t1) != suffix_text(t2),
{
    reveal_strlit("b");
    reveal_strlit("l");
    reveal_strlit("q");
    reveal_strlit("sd");
    if t1 != t2 && suffix_text(t1).len() == suffix_text(t2).len() {
        assert(suffix_text(t1)[0] != suffix_text(t2)[0]);
    }
}

} // verus!
