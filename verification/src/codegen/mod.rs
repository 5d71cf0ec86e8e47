use vstd::prelude::*;

use crate::codegen::asm_ast::{double_text, asm_binary_value, asm_unary_value, bit_pattern, cond_holds, division_leaves, 
    AsmProgram, AsmStaticVar, AsmTopLevel, constant_name, get_alignment, spec_alignment, AsmFunction, AsmInstV, AsmInstruction, AsmType, BinaryOp, Condition, FuncNum, Operand, OperandV, RegSize, Register,
    Statics, UnaryOp, asm_view, consts_view, float_arg_reg, get_func_reg, get_regsize, int_arg_reg, intern, spec_regsize,
};
use crate::codegen::stack::{assign_stack_slots, framed_body, inst_pseudos_ok, legal};
use crate::codegen::asm_symtab::{
    AsmSymbol, AsmSymbolTable, convert_symtable, convertible, last_value, lemma_last_value_skip, lemma_last_value_unique,
    spec_convert_symbol, spec_convert_type, symtable_records, convert_type,
};
use crate::parser::ast::{Const, ConstV};
use crate::poise::{poise_binary_value, poise_unary_value, PoiseProg, PoiseStaticVar, PoiseStaticVarV, TopLevelItem, TopLevelItemV, tops_view, PoiseFunc, PoiseFuncV, insts_view, vals_view, PInstV, PValV, PoiseBinaryOp, PoiseInstruction, PoiseUnaryOp, PoiseVal};
use crate::semanal::type_checker::const_type;
use crate::text::{chars_of, dec_str, push_decimal, string_from_chars};
use crate::types::{SymbolTable, SymbolV, Type, TypeV, lemma_lookup_some, lookup};

pub mod asm_ast;
pub mod asm_symtab;
pub mod ready;
pub mod slots;
pub mod stack;

verus! {

broadcast use vstd::std_specs::vec::group_vec_axioms, vstd::seq::group_seq_axioms;

/// The state of generating one function: the instructions so far, the
/// constants interned (value text and alignment) and the label counter.
pub struct CG {
    pub out: Seq<AsmInstV>,
    pub consts: Seq<(Seq<char>, usize)>,
    pub count: nat,
}

/// The C type of an operand: a variable's from the symbol table, a constant's from its kind.
pub open spec fn num_type(syms: SymbolTable, v: PValV) -> TypeV {
    match v {
        PValV::Variable(n) => syms.spec_get(n)->0.datatype,
        PValV::Constant(c) => const_type(c),
    }
}

pub open spec fn val_type(syms: SymbolTable, v: PValV) -> AsmType {
    spec_convert_type(num_type(syms, v))
}

pub open spec fn is_dbl(syms: SymbolTable, v: PValV) -> bool {
    num_type(syms, v) is Double
}

/// A variable operand names an object of arithmetic type.
pub open spec fn val_ok(syms: SymbolTable, v: PValV) -> bool {
    v matches PValV::Variable(n) ==> syms.spec_get(n) is Some && syms.spec_get(n)->0.datatype.spec_is_arithmetic()
}

/// The operand of a value: constants inline, except `double`s, which are
/// interned and read from memory; variables as pseudo-registers.
#[verifier::opaque]
pub open spec fn c_op(st: CG, v: PValV) -> (CG, OperandV) {
    match v {
        PValV::Constant(ConstV::Int(i)) => (st, OperandV::Imm(i as i64)),
        PValV::Constant(ConstV::Long(l)) => (st, OperandV::Imm(l)),
        PValV::Constant(ConstV::UInt(u)) => (st, OperandV::Imm(u as i64)),
        PValV::Constant(ConstV::ULong(u)) => (st, OperandV::Imm(u as i64)),
        PValV::Constant(ConstV::Double(d)) => {
            let (cs, n) = intern(st.consts, d, 8);
            (CG { consts: cs, ..st }, OperandV::Data(n))
        },
        PValV::Variable(n) => (st, OperandV::Pseudo(n)),
    }
}

pub open spec fn c_emit(st: CG, i: AsmInstV) -> CG {
    CG { out: st.out.push(i), ..st }
}

/// The `n`-th local label of the function `ident`.
pub open spec fn asm_label(ident: Seq<char>, n: nat) -> Seq<char> {
    seq!['a', 's', 'm', '_'] + ident + seq!['.'] + dec_str(n)
}

pub open spec fn c_label(st: CG, ident: Seq<char>) -> (CG, Seq<char>) {
    (CG { count: st.count + 1, ..st }, asm_label(ident, st.count))
}

pub open spec fn reg(r: Register, t: AsmType) -> OperandV {
    OperandV::Reg(r, spec_regsize(t))
}

/// The register that returns a value of type `t`.
pub open spec fn ret_reg(t: AsmType) -> Register {
    if t != AsmType::Double {
        Register::AX
    } else {
        Register::XMM0
    }
}

pub open spec fn spec_gen_binary(op: PoiseBinaryOp, signed: bool) -> BinaryOp {
    match op {
        PoiseBinaryOp::Add => BinaryOp::Add,
        PoiseBinaryOp::Subtract => BinaryOp::Sub,
        PoiseBinaryOp::Multiply => BinaryOp::Mult,
        PoiseBinaryOp::LeftShift => if signed { BinaryOp::Sal } else { BinaryOp::Shl },
        PoiseBinaryOp::RightShift => if signed { BinaryOp::Sar } else { BinaryOp::Shr },
        PoiseBinaryOp::BitwiseAnd => BinaryOp::BitAnd,
        PoiseBinaryOp::BitwiseOr => BinaryOp::BitOr,
        _ => BinaryOp::BitXor,
    }
}

pub open spec fn spec_gen_conditional(op: PoiseBinaryOp, signed: bool) -> Condition {
    match op {
        PoiseBinaryOp::Equal => Condition::E,
        PoiseBinaryOp::NotEqual => Condition::NE,
        PoiseBinaryOp::GreaterThan => if signed { Condition::G } else { Condition::A },
        PoiseBinaryOp::GreaterOrEqual => if signed { Condition::GE } else { Condition::AE },
        PoiseBinaryOp::LessThan => if signed { Condition::L } else { Condition::B },
        _ => if signed { Condition::LE } else { Condition::BE },
    }
}

/// The register that holds the wanted result after a division: the
/// quotient for `Divide`, the remainder otherwise.
pub open spec fn spec_gen_division(op: PoiseBinaryOp) -> Register {
    if op is Divide {
        Register::AX
    } else {
        Register::DX
    }
}

pub open spec fn is_arith_op(op: PoiseBinaryOp) -> bool {
    op is Add || op is Subtract || op is Multiply || op is BitwiseAnd || op is BitwiseOr || op is BitwiseXor
}

pub open spec fn is_relational(op: PoiseBinaryOp) -> bool {
    op is Equal || op is NotEqual || op is GreaterThan || op is GreaterOrEqual || op is LessThan || op is LessOrEqual
}

#[verifier::opaque]
pub open spec fn c_unary(st: CG, syms: SymbolTable, op: PoiseUnaryOp, src: PValV, dst: PValV) -> CG {
    let srct = val_type(syms, src);
    let dstt = val_type(syms, dst);
    let (st1, s) = c_op(st, src);
    let (st2, d) = c_op(st1, dst);
    match op {
        PoiseUnaryOp::Negate => if srct != AsmType::Double {
            c_emit(c_emit(st2, AsmInstV::Mov(srct, s, d)), AsmInstV::Unary(UnaryOp::Neg, srct, d))
        } else {
            let (cs, lab) = intern(st2.consts, seq!['-', '0', '.', '0'], 16);
            let st3 = CG { consts: cs, ..st2 };
            c_emit(
                c_emit(st3, AsmInstV::Mov(srct, s, d)),
                AsmInstV::Binary(BinaryOp::BitXor, AsmType::Double, OperandV::Data(lab), d),
            )
        },
        PoiseUnaryOp::Complement => c_emit(
            c_emit(st2, AsmInstV::Mov(srct, s, d)),
            AsmInstV::Unary(UnaryOp::Not, srct, d),
        ),
        PoiseUnaryOp::Not => if !is_dbl(syms, src) {
            c_emit(
                c_emit(c_emit(st2, AsmInstV::Cmp(srct, OperandV::Imm(0), s)), AsmInstV::Mov(dstt, OperandV::Imm(0), d)),
                AsmInstV::SetCC(Condition::E, d),
            )
        } else {
            let scratch = OperandV::Reg(Register::XMM14, RegSize::Quad);
            let r11 = OperandV::Reg(Register::R11, RegSize::Byte);
            let st3 = c_emit(st2, AsmInstV::Binary(BinaryOp::BitXor, AsmType::Double, scratch, scratch));
            let st4 = c_emit(st3, AsmInstV::Cmp(AsmType::Double, scratch, s));
            let st5 = c_emit(st4, AsmInstV::Mov(dstt, OperandV::Imm(0), d));
            let st6 = c_emit(st5, AsmInstV::SetCC(Condition::E, d));
            let st7 = c_emit(st6, AsmInstV::SetCC(Condition::NP, r11));
            c_emit(st7, AsmInstV::Binary(BinaryOp::BitAnd, AsmType::Byte, r11, d))
        },
    }
}

#[verifier::opaque]
pub open spec fn c_binary(st: CG, syms: SymbolTable, op: PoiseBinaryOp, src1: PValV, src2: PValV, dst: PValV) -> CG {
    let srct = val_type(syms, src1);
    let dstt = val_type(syms, dst);
    let srcd = is_dbl(syms, src1);
    let signed = if !srcd { num_type(syms, src1).spec_is_signed() } else { false };
    let (st1, s1) = c_op(st, src1);
    let (st2, s2) = c_op(st1, src2);
    let (st3, d) = c_op(st2, dst);
    let r11 = OperandV::Reg(Register::R11, RegSize::Byte);
    if is_arith_op(op) {
        c_emit(c_emit(st3, AsmInstV::Mov(srct, s1, d)), AsmInstV::Binary(spec_gen_binary(op, signed), srct, s2, d))
    } else if op is Divide && srcd {
        c_emit(c_emit(st3, AsmInstV::Mov(srct, s1, d)), AsmInstV::Binary(BinaryOp::DivDouble, srct, s2, d))
    } else if op is Divide || op is Remainder {
        let res = spec_gen_division(op);
        let st4 = c_emit(st3, AsmInstV::Mov(srct, s1, reg(Register::AX, srct)));
        let st5 = c_emit(st4, AsmInstV::Mov(srct, s2, reg(Register::R10, srct)));
        if signed {
            let st6 = c_emit(st5, AsmInstV::Cdq(srct));
            let st7 = c_emit(st6, AsmInstV::Idiv(srct, reg(Register::R10, srct)));
            c_emit(st7, AsmInstV::Mov(srct, reg(res, srct), d))
        } else {
            let st6 = c_emit(st5, AsmInstV::Mov(srct, OperandV::Imm(0), reg(Register::DX, srct)));
            let st7 = c_emit(st6, AsmInstV::Div(srct, reg(Register::R10, srct)));
            c_emit(st7, AsmInstV::Mov(srct, reg(res, srct), d))
        }
    } else if op is LeftShift || op is RightShift {
        let st4 = c_emit(st3, AsmInstV::Mov(srct, s1, d));
        if s2 is Imm {
            c_emit(st4, AsmInstV::Binary(spec_gen_binary(op, signed), srct, s2, d))
        } else {
            let st5 = c_emit(st4, AsmInstV::Mov(AsmType::Longword, s2, OperandV::Reg(Register::R10, RegSize::Long)));
            let st6 = c_emit(
                st5,
                AsmInstV::Mov(
                    AsmType::Byte,
                    OperandV::Reg(Register::R10, RegSize::Byte),
                    OperandV::Reg(Register::CX, RegSize::Byte),
                ),
            );
            c_emit(
                st6,
                AsmInstV::Binary(spec_gen_binary(op, signed), srct, OperandV::Reg(Register::CX, RegSize::Byte), d),
            )
        }
    } else {
        let st4 = c_emit(st3, AsmInstV::Cmp(srct, s2, s1));
        let st5 = c_emit(st4, AsmInstV::Mov(dstt, OperandV::Imm(0), d));
        let st6 = c_emit(st5, AsmInstV::SetCC(spec_gen_conditional(op, signed), d));
        if srcd && op is NotEqual {
            let st7 = c_emit(st6, AsmInstV::SetCC(Condition::P, r11));
            c_emit(st7, AsmInstV::Binary(BinaryOp::BitOr, AsmType::Byte, r11, d))
        } else if srcd {
            let st7 = c_emit(st6, AsmInstV::SetCC(Condition::NP, r11));
            c_emit(st7, AsmInstV::Binary(BinaryOp::BitAnd, AsmType::Byte, r11, d))
        } else {
            st6
        }
    }
}

/// An unsigned integer converted to a `double`; a 64-bit one at or above
/// 2^63 is halved (keeping its low bit), converted and doubled.
#[verifier::opaque]
pub open spec fn c_u2d(st: CG, syms: SymbolTable, ident: Seq<char>, src: PValV, dst: PValV) -> CG {
    let srct = val_type(syms, src);
    let (st1, s) = c_op(st, src);
    let (st2, d) = c_op(st1, dst);
    if srct == AsmType::Longword {
        let st3 = c_emit(st2, AsmInstV::MovZeroExtend(s, OperandV::Reg(Register::AX, RegSize::Long)));
        c_emit(st3, AsmInstV::Cvtsi2sd(AsmType::Quadword, OperandV::Reg(Register::AX, RegSize::Quad), d))
    } else {
        let (st3, lab1) = c_label(st2, ident);
        let (st4, lab2) = c_label(st3, ident);
        let r10 = reg(Register::R10, srct);
        let r11 = reg(Register::R11, srct);
        let q = AsmType::Quadword;
        CG {
            out: st4.out + seq![
                AsmInstV::Cmp(q, OperandV::Imm(0), s),
                AsmInstV::JmpCC(Condition::L, lab1),
                AsmInstV::Cvtsi2sd(q, s, d),
                AsmInstV::Jmp(lab2),
                AsmInstV::Label(lab1),
                AsmInstV::Mov(q, s, r10),
                AsmInstV::Mov(q, r10, r11),
                AsmInstV::Binary(BinaryOp::Shr, q, OperandV::Imm(1), r11),
                AsmInstV::Binary(BinaryOp::BitAnd, q, OperandV::Imm(1), r10),
                AsmInstV::Binary(BinaryOp::BitOr, q, r10, r11),
                AsmInstV::Cvtsi2sd(q, r11, d),
                AsmInstV::Binary(BinaryOp::Add, AsmType::Double, d, d),
                AsmInstV::Label(lab2),
            ],
            ..st4
        }
    }
}

/// A `double` converted to an unsigned integer; one at or above 2^63 is
/// reduced by 2^63 first and the high bit added back.
#[verifier::opaque]
pub open spec fn c_d2u(st: CG, syms: SymbolTable, ident: Seq<char>, src: PValV, dst: PValV) -> CG {
    let dstt = val_type(syms, dst);
    let (st1, s) = c_op(st, src);
    let (st2, d) = c_op(st1, dst);
    if dstt == AsmType::Longword {
        let st3 = c_emit(st2, AsmInstV::Cvttsd2si(AsmType::Quadword, s, OperandV::Reg(Register::AX, RegSize::Quad)));
        c_emit(st3, AsmInstV::Mov(AsmType::Longword, reg(Register::AX, dstt), d))
    } else {
        let (st3, lab1) = c_label(st2, ident);
        let (st4, lab2) = c_label(st3, ident);
        let (cs, upper) = intern(st4.consts, two_63_text(), 8);
        let ub = OperandV::Data(upper);
        let x0 = OperandV::Reg(Register::XMM0, RegSize::Quad);
        let r10 = OperandV::Reg(Register::R10, RegSize::Quad);
        let q = AsmType::Quadword;
        CG {
            out: st4.out + seq![
                AsmInstV::Cmp(AsmType::Double, ub, s),
                AsmInstV::JmpCC(Condition::AE, lab1),
                AsmInstV::Cvttsd2si(q, s, d),
                AsmInstV::Jmp(lab2),
                AsmInstV::Label(lab1),
                AsmInstV::Mov(AsmType::Double, s, x0),
                AsmInstV::Binary(BinaryOp::Sub, AsmType::Double, ub, x0),
                AsmInstV::Cvttsd2si(q, x0, d),
                AsmInstV::Mov(q, OperandV::Imm(-9223372036854775808i64), r10),
                AsmInstV::Binary(BinaryOp::Add, q, r10, d),
                AsmInstV::Label(lab2),
            ],
            consts: cs,
            ..st4
        }
    }
}

/// The decimal text of 2^63.
pub open spec fn two_63_text() -> Seq<char> {
    seq!['9', '2', '2', '3', '3', '7', '2', '0', '3', '6', '8', '5', '4', '7', '7', '5', '8', '0', '8', '.', '0']
}


/// The arguments of a call split as the calling convention places them:
/// up to six integers and up to eight doubles in registers, the rest on
/// the stack, each list in the order of the arguments.
pub open spec fn partition(syms: SymbolTable, args: Seq<PValV>) -> (Seq<PValV>, Seq<PValV>, Seq<PValV>)
    decreases args.len(),
{
    if args.len() == 0 {
        (Seq::empty(), Seq::empty(), Seq::empty())
    } else {
        let (g, f, s) = partition(syms, args.drop_last());
        let a = args.last();
        if !is_dbl(syms, a) && g.len() < 6 {
            (g.push(a), f, s)
        } else if is_dbl(syms, a) && f.len() < 8 {
            (g, f.push(a), s)
        } else {
            (g, f, s.push(a))
        }
    }
}

/// Argument positions handed out so far: integer registers, floating-point
/// registers, stack slots.
pub struct ArgPos {
    pub ints: nat,
    pub floats: nat,
    pub stack: nat,
}

/// The next place of an argument: in a register (with its number) or on
/// the stack (with its slot).
pub open spec fn next_pos(n: ArgPos, float: bool) -> (bool, nat, ArgPos) {
    if !float {
        if n.ints <= 5 {
            (true, n.ints, ArgPos { ints: n.ints + 1, ..n })
        } else {
            (false, n.stack, ArgPos { stack: n.stack + 1, ..n })
        }
    } else {
        if n.floats <= 7 {
            (true, n.floats, ArgPos { floats: n.floats + 1, ..n })
        } else {
            (false, n.stack, ArgPos { stack: n.stack + 1, ..n })
        }
    }
}

pub open spec fn arg_reg(num: nat, float: bool) -> Register {
    if float {
        float_arg_reg(num as int)
    } else {
        int_arg_reg(num as int)
    }
}

/// An argument pushed on the stack; a 32-bit one in memory goes through `eax`.
pub open spec fn c_arg_stack(st: CG, a: OperandV, t: AsmType) -> CG {
    if (a is Pseudo || a is Stack || a is Data) && t == AsmType::Longword {
        c_emit(
            c_emit(st, AsmInstV::Mov(t, a, OperandV::Reg(Register::AX, RegSize::Long))),
            AsmInstV::Push(OperandV::Reg(Register::AX, RegSize::Quad)),
        )
    } else {
        c_emit(st, AsmInstV::Push(a))
    }
}

pub open spec fn c_copy_arg(st: CG, n: ArgPos, syms: SymbolTable, arg: PValV) -> (CG, ArgPos) {
    let t = val_type(syms, arg);
    let float = t == AsmType::Double;
    let (is_reg, num, n1) = next_pos(n, float);
    let (st1, a) = c_op(st, arg);
    if is_reg {
        (c_emit(st1, AsmInstV::Mov(t, a, reg(arg_reg(num, float), t))), n1)
    } else {
        (c_arg_stack(st1, a, t), n1)
    }
}

pub open spec fn c_copy_args(st: CG, n: ArgPos, syms: SymbolTable, args: Seq<PValV>) -> (CG, ArgPos)
    decreases args.len(),
{
    if args.len() == 0 {
        (st, n)
    } else {
        let (st1, n1) = c_copy_args(st, n, syms, args.drop_last());
        c_copy_arg(st1, n1, syms, args.last())
    }
}

#[verifier::opaque]
pub open spec fn c_call(st: CG, syms: SymbolTable, f: Seq<char>, args: Seq<PValV>, dst: PValV) -> CG {
    let (g, fl, stk) = partition(syms, args);
    let pad = stk.len() % 2 != 0;
    let st1 = if pad {
        c_emit(st, AsmInstV::Binary(BinaryOp::Sub, AsmType::Quadword, OperandV::Imm(8), OperandV::Reg(Register::SP, RegSize::Quad)))
    } else {
        st
    };
    let removal = 8 * stk.len() + if pad { 8int } else { 0int };
    let n0 = ArgPos { ints: 0, floats: 0, stack: 0 };
    let (st2, n2) = c_copy_args(st1, n0, syms, g);
    let (st3, n3) = c_copy_args(st2, n2, syms, fl);
    let (st4, _) = c_copy_args(st3, n3, syms, stk.reverse());
    let st5 = c_emit(st4, AsmInstV::Call(f));
    let st6 = if removal != 0 {
        c_emit(
            st5,
            AsmInstV::Binary(BinaryOp::Add, AsmType::Quadword, OperandV::Imm(removal as i64), OperandV::Reg(Register::SP, RegSize::Quad)),
        )
    } else {
        st5
    };
    let t = val_type(syms, dst);
    let (st7, d) = c_op(st6, dst);
    c_emit(st7, AsmInstV::Mov(t, reg(ret_reg(t), t), d))
}

/// The assembly for one instruction of the intermediate form.
pub open spec fn c_inst(st: CG, syms: SymbolTable, ident: Seq<char>, i: PInstV) -> CG {
    match i {
        PInstV::Return(v) => {
            let t = val_type(syms, v);
            let (st1, op) = c_op(st, v);
            c_emit(c_emit(st1, AsmInstV::Mov(t, op, reg(ret_reg(t), t))), AsmInstV::Ret)
        },
        PInstV::Unary { op, src, dst } => c_unary(st, syms, op, src, dst),
        PInstV::Binary { op, src1, src2, dst } => c_binary(st, syms, op, src1, src2, dst),
        PInstV::Jump(id) => c_emit(st, AsmInstV::Jmp(id)),
        PInstV::JumpIfZero { condition, identifier } => {
            let t = val_type(syms, condition);
            let (st1, c) = c_op(st, condition);
            if !is_dbl(syms, condition) {
                c_emit(c_emit(st1, AsmInstV::Cmp(t, OperandV::Imm(0), c)), AsmInstV::JmpCC(Condition::E, identifier))
            } else {
                let scratch = OperandV::Reg(Register::XMM0, RegSize::Quad);
                let (st2, lab) = c_label(st1, ident);
                CG {
                    out: st2.out + seq![
                        AsmInstV::Binary(BinaryOp::BitXor, t, scratch, scratch),
                        AsmInstV::Cmp(AsmType::Double, scratch, c),
                        AsmInstV::JmpCC(Condition::P, lab),
                        AsmInstV::JmpCC(Condition::E, identifier),
                        AsmInstV::Label(lab),
                    ],
                    ..st2
                }
            }
        },
        PInstV::JumpIfNotZero { condition, identifier } => {
            let t = val_type(syms, condition);
            let (st1, c) = c_op(st, condition);
            if !is_dbl(syms, condition) {
                c_emit(c_emit(st1, AsmInstV::Cmp(t, OperandV::Imm(0), c)), AsmInstV::JmpCC(Condition::NE, identifier))
            } else {
                let scratch = OperandV::Reg(Register::XMM0, RegSize::Quad);
                CG {
                    out: st1.out + seq![
                        AsmInstV::Binary(BinaryOp::BitXor, t, scratch, scratch),
                        AsmInstV::Cmp(AsmType::Double, scratch, c),
                        AsmInstV::JmpCC(Condition::P, identifier),
                        AsmInstV::JmpCC(Condition::NE, identifier),
                    ],
                    ..st1
                }
            }
        },
        PInstV::Copy { src, dst } => {
            let t = val_type(syms, src);
            let (st1, s) = c_op(st, src);
            let (st2, d) = c_op(st1, dst);
            c_emit(st2, AsmInstV::Mov(t, s, d))
        },
        PInstV::Label(id) => c_emit(st, AsmInstV::Label(id)),
        PInstV::FunctionCall { ident: f, args, dst } => c_call(st, syms, f, args, dst),
        PInstV::SignExtend { src, dst } => {
            let (st1, s) = c_op(st, src);
            let (st2, d) = c_op(st1, dst);
            c_emit(st2, AsmInstV::Movsx(s, d))
        },
        PInstV::Truncate { src, dst } => {
            let (st1, s) = c_op(st, src);
            let (st2, d) = c_op(st1, dst);
            c_emit(st2, AsmInstV::Mov(AsmType::Longword, s, d))
        },
        PInstV::ZeroExtend { src, dst } => {
            let (st1, s) = c_op(st, src);
            let (st2, d) = c_op(st1, dst);
            c_emit(st2, AsmInstV::MovZeroExtend(s, d))
        },
        PInstV::IntToDouble { src, dst } => {
            let t = val_type(syms, src);
            let (st1, s) = c_op(st, src);
            let (st2, d) = c_op(st1, dst);
            c_emit(st2, AsmInstV::Cvtsi2sd(t, s, d))
        },
        PInstV::DoubleToInt { src, dst } => {
            let t = val_type(syms, dst);
            let (st1, s) = c_op(st, src);
            let (st2, d) = c_op(st1, dst);
            c_emit(st2, AsmInstV::Cvttsd2si(t, s, d))
        },
        PInstV::UIntToDouble { src, dst } => c_u2d(st, syms, ident, src, dst),
        PInstV::DoubleToUInt { src, dst } => c_d2u(st, syms, ident, src, dst),
    }
}

pub open spec fn c_insts(st: CG, syms: SymbolTable, ident: Seq<char>, is: Seq<PInstV>) -> CG
    decreases is.len(),
{
    if is.len() == 0 {
        st
    } else {
        c_inst(c_insts(st, syms, ident, is.drop_last()), syms, ident, is.last())
    }
}

/// The instructions the generator handles: operands name arithmetic
/// objects, unsigned conversions involve 32- or 64-bit integers, no
/// remainder of doubles, and calls with fewer than 2^27 arguments.
pub open spec fn inst_ok(syms: SymbolTable, i: PInstV) -> bool {
    match i {
        PInstV::Return(v) => val_ok(syms, v),
        PInstV::Unary { src, dst, .. } => val_ok(syms, src) && val_ok(syms, dst),
        PInstV::Binary { op, src1, src2, dst } => val_ok(syms, src1) && val_ok(syms, src2) && val_ok(syms, dst)
            && !(op is Remainder && is_dbl(syms, src1)),
        PInstV::JumpIfZero { condition, .. } | PInstV::JumpIfNotZero { condition, .. } => val_ok(syms, condition),
        PInstV::FunctionCall { args, dst, .. } => val_ok(syms, dst) && args.len() < 0x800_0000
            && forall|k: int| 0 <= k < args.len() ==> val_ok(syms, #[trigger] args[k]),
        PInstV::UIntToDouble { src, dst } => val_ok(syms, src) && val_ok(syms, dst) && (val_type(syms, src)
            == AsmType::Longword || val_type(syms, src) == AsmType::Quadword),
        PInstV::DoubleToUInt { src, dst } => val_ok(syms, src) && val_ok(syms, dst) && (val_type(syms, dst)
            == AsmType::Longword || val_type(syms, dst) == AsmType::Quadword),
        PInstV::SignExtend { src, dst } | PInstV::Truncate { src, dst } | PInstV::ZeroExtend { src, dst }
        | PInstV::IntToDouble { src, dst } | PInstV::DoubleToInt { src, dst } | PInstV::Copy { src, dst } => val_ok(
            syms,
            src,
        ) && val_ok(syms, dst),
        _ => true,
    }
}

/// The instruction that copies parameter `p` from where the caller left it.
pub open spec fn c_param(syms: SymbolTable, n: ArgPos, p: Seq<char>) -> (AsmInstV, ArgPos) {
    let t = val_type(syms, PValV::Variable(p));
    let float = t == AsmType::Double;
    let (is_reg, num, n1) = next_pos(n, float);
    if is_reg {
        (AsmInstV::Mov(t, reg(arg_reg(num, float), t), OperandV::Pseudo(p)), n1)
    } else {
        (AsmInstV::Mov(t, OperandV::Stack((num * 8 + 16) as i32), OperandV::Pseudo(p)), n1)
    }
}

pub open spec fn c_params(syms: SymbolTable, n: ArgPos, ps: Seq<Seq<char>>) -> (Seq<AsmInstV>, ArgPos)
    decreases ps.len(),
{
    if ps.len() == 0 {
        (Seq::empty(), n)
    } else {
        let (is, n1) = c_params(syms, n, ps.drop_last());
        let (i, n2) = c_param(syms, n1, ps.last());
        (is.push(i), n2)
    }
}


fn gen_binary(exp: PoiseBinaryOp, signed: bool) -> (r: BinaryOp)
    requires
        is_arith_op(exp) || exp is LeftShift || exp is RightShift,
    ensures
        r == spec_gen_binary(exp, signed),
{
    match exp {
        PoiseBinaryOp::Add => BinaryOp::Add,
        PoiseBinaryOp::Subtract => BinaryOp::Sub,
        PoiseBinaryOp::Multiply => BinaryOp::Mult,
        PoiseBinaryOp::LeftShift => if signed { BinaryOp::Sal } else { BinaryOp::Shl },
        PoiseBinaryOp::RightShift => if signed { BinaryOp::Sar } else { BinaryOp::Shr },
        PoiseBinaryOp::BitwiseAnd => BinaryOp::BitAnd,
        PoiseBinaryOp::BitwiseOr => BinaryOp::BitOr,
        PoiseBinaryOp::BitwiseXor => BinaryOp::BitXor,
        _ => vstd::pervasive::unreached(),
    }
}

/// The register that holds a quotient (`Divide`) or a remainder.
fn gen_division(exp: PoiseBinaryOp) -> (r: Register)
    requires
        exp is Divide || exp is Remainder,
    ensures
        r == spec_gen_division(exp),
{
    match exp {
        PoiseBinaryOp::Divide => Register::AX,
        PoiseBinaryOp::Remainder => Register::DX,
        _ => vstd::pervasive::unreached(),
    }
}

fn gen_conditional(op: PoiseBinaryOp, signed: bool) -> (r: Condition)
    requires
        is_relational(op),
    ensures
        r == spec_gen_conditional(op, signed),
{
    match op {
        PoiseBinaryOp::Equal => Condition::E,
        PoiseBinaryOp::NotEqual => Condition::NE,
        PoiseBinaryOp::GreaterThan => if signed { Condition::G } else { Condition::A },
        PoiseBinaryOp::GreaterOrEqual => if signed { Condition::GE } else { Condition::AE },
        PoiseBinaryOp::LessThan => if signed { Condition::L } else { Condition::B },
        PoiseBinaryOp::LessOrEqual => if signed { Condition::LE } else { Condition::BE },
        _ => vstd::pervasive::unreached(),
    }
}

/// Generates the assembly of one function.
pub struct FuncGen<'a> {
    pub ident: String,
    pub generated: Vec<AsmInstruction>,
    pub statics: Statics,
    pub symbols: &'a SymbolTable,
    pub count: usize,
}

/// `b` generates for the same function as `a`, against the same table,
/// with well-formed constants.
pub open spec fn same_env(a: FuncGen, b: FuncGen) -> bool {
    a.ident == b.ident && a.symbols == b.symbols && b.statics.wf()
}

impl<'a> FuncGen<'a> {
    /// The generation state this generator holds.
    pub open spec fn cg(&self) -> CG {
        CG { out: asm_view(self.generated@), consts: consts_view(self.statics.statics_map@), count: self.count as nat }
    }

    pub open spec fn syms(&self) -> SymbolTable {
        *self.symbols
    }

    fn new(table: &'a SymbolTable, statics: Statics, ident: String) -> (r: FuncGen<'a>)
        ensures
            r.ident == ident,
            r.generated@.len() == 0,
            r.statics == statics,
            r.symbols == table,
            r.count == 0,
    {
        FuncGen { ident, generated: Vec::new(), statics, symbols: table, count: 0 }
    }

    fn push(&mut self, inst: AsmInstruction)
        ensures
            final(self).cg() == c_emit(old(self).cg(), inst@),
            final(self).ident == old(self).ident,
            final(self).symbols == old(self).symbols,
            final(self).statics == old(self).statics,
            final(self).count == old(self).count,
    {
        self.generated.push(inst);
        assert(asm_view(self.generated@) =~= asm_view(old(self).generated@).push(inst@));
    }

    fn intern_static(&mut self, init: String, alignment: usize) -> (r: String)
        requires
            old(self).statics.wf(),
        ensures
            same_env(*old(self), *final(self)),
            (final(self).cg().consts, r@) == intern(old(self).cg().consts, init@, alignment),
            final(self).cg().out == old(self).cg().out,
            final(self).count == old(self).count,
    {
        self.statics.intern_static(init, alignment)
    }

    /// A fresh local label: `asm_`, the function's name, a dot and a number.
    fn get_count(&mut self) -> (r: String)
        requires
            old(self).count < usize::MAX,
        ensures
            (final(self).cg(), r@) == c_label(old(self).cg(), old(self).ident@),
            final(self).ident == old(self).ident,
            final(self).symbols == old(self).symbols,
            final(self).statics == old(self).statics,
    {
        let mut v: Vec<char> = Vec::new();
        v.push('a');
        v.push('s');
        v.push('m');
        v.push('_');
        let name = chars_of(&self.ident);
        let ghost start = v@;
        let mut i: usize = 0;
        while i < name.len()
            invariant
                i <= name@.len(),
                v@ == start + name@.subrange(0, i as int),
            decreases name@.len() - i,
        {
            v.push(name[i]);
            i = i + 1;
            assert(v@ =~= start + name@.subrange(0, i as int));
        }
        v.push('.');
        push_decimal(self.count as u64, &mut v);
        assert(v@ =~= asm_label(self.ident@, self.count as nat));
        self.count = self.count + 1;
        string_from_chars(&v)
    }

    /// The symbol-table entry of `ident`, which must be there.
    pub fn get_symbol(&self, ident: &String) -> (r: crate::types::Symbol)
        requires
            self.syms().spec_get(ident@) is Some,
        ensures
            r@ == self.syms().spec_get(ident@)->0,
    {
        match self.symbols.get(ident) {
            Some(sym) => sym.duplicate(),
            None => vstd::pervasive::unreached(),
        }
    }

    pub fn get_var_type(&self, ident: &String) -> (r: AsmType)
        requires
            val_ok(self.syms(), PValV::Variable(ident@)),
        ensures
            r == val_type(self.syms(), PValV::Variable(ident@)),
    {
        convert_type(&self.get_symbol(ident).datatype)
    }

    pub fn is_double(&self, val: &PoiseVal) -> (r: bool)
        requires
            val_ok(self.syms(), val@),
        ensures
            r == is_dbl(self.syms(), val@),
    {
        match val {
            PoiseVal::Constant(Const::Double(_)) => true,
            PoiseVal::Variable(ident) => self.get_symbol(ident).datatype.is_double(),
            _ => false,
        }
    }

    pub fn get_num_type(&self, val: &PoiseVal) -> (r: Type)
        requires
            val_ok(self.syms(), val@),
        ensures
            r@ == num_type(self.syms(), val@),
    {
        match val {
            PoiseVal::Variable(ident) => self.get_symbol(ident).datatype,
            PoiseVal::Constant(i) => match i {
                Const::Int(_) => Type::Int,
                Const::Long(_) => Type::Long,
                Const::UInt(_) => Type::UInt,
                Const::ULong(_) => Type::ULong,
                Const::Double(_) => Type::Double,
            },
        }
    }

    pub fn get_asmtype(&self, val: &PoiseVal) -> (r: AsmType)
        requires
            val_ok(self.syms(), val@),
        ensures
            r == val_type(self.syms(), val@),
    {
        match val {
            PoiseVal::Variable(ident) => self.get_var_type(ident),
            PoiseVal::Constant(Const::Int(_)) => AsmType::Longword,
            PoiseVal::Constant(Const::Long(_)) => AsmType::Quadword,
            PoiseVal::Constant(Const::UInt(_)) => AsmType::Longword,
            PoiseVal::Constant(Const::ULong(_)) => AsmType::Quadword,
            PoiseVal::Constant(Const::Double(_)) => AsmType::Double,
        }
    }

    fn gen_operand(&mut self, exp: PoiseVal) -> (r: Operand)
        requires
            old(self).statics.wf(),
        ensures
            same_env(*old(self), *final(self)),
            (final(self).cg(), r@) == c_op(old(self).cg(), exp@),
            final(self).count == old(self).count,
            final(self).cg().out == old(self).cg().out,
    {
        proof {
            reveal(c_op);
        }
        match exp {
            PoiseVal::Constant(cst) => match cst {
                Const::Int(val) => Operand::Imm(val as i64),
                Const::Long(val) => Operand::Imm(val),
                Const::UInt(val) => Operand::Imm(val as i64),
                Const::ULong(val) => Operand::Imm(val as i64),
                Const::Double(val) => Operand::Data(self.intern_static(val, 8)),
            },
            PoiseVal::Variable(ident) => Operand::Pseudo(ident),
        }
    }

    fn unary_handler(&mut self, op: PoiseUnaryOp, src: PoiseVal, dst: PoiseVal)
        requires
            old(self).statics.wf(),
            val_ok(old(self).syms(), src@),
            val_ok(old(self).syms(), dst@),
        ensures
            same_env(*old(self), *final(self)),
            final(self).cg() == c_unary(old(self).cg(), old(self).syms(), op, src@, dst@),
            final(self).count == old(self).count,
    {
        proof {
            reveal(c_unary);
        }
        let srct = self.get_asmtype(&src);
        let dstt = self.get_asmtype(&dst);
        let src_double = self.is_double(&src);
        let s = self.gen_operand(src);
        let d = self.gen_operand(dst);
        match op {
            PoiseUnaryOp::Negate => {
                if srct != AsmType::Double {
                    self.push(AsmInstruction::Mov(srct, s, d.duplicate()));
                    self.push(AsmInstruction::Unary(UnaryOp::Neg, srct, d))
                } else {
                    let mut v: Vec<char> = Vec::new();
                    v.push('-');
                    v.push('0');
                    v.push('.');
                    v.push('0');
                    assert(v@ =~= seq!['-', '0', '.', '0']);
                    let lab = self.intern_static(string_from_chars(&v), 16);
                    self.push(AsmInstruction::Mov(srct, s, d.duplicate()));
                    self.push(AsmInstruction::Binary(BinaryOp::BitXor, AsmType::Double, Operand::Data(lab), d));
                }
            },
            PoiseUnaryOp::Complement => {
                self.push(AsmInstruction::Mov(srct, s, d.duplicate()));
                self.push(AsmInstruction::Unary(UnaryOp::Not, srct, d))
            },
            PoiseUnaryOp::Not => {
                if !src_double {
                    self.push(AsmInstruction::Cmp(srct, Operand::Imm(0), s));
                    self.push(AsmInstruction::Mov(dstt, Operand::Imm(0), d.duplicate()));
                    self.push(AsmInstruction::SetCC(Condition::E, d));
                } else {
                    self.push(
                        AsmInstruction::Binary(
                            BinaryOp::BitXor,
                            AsmType::Double,
                            Operand::Reg(Register::XMM14, RegSize::Quad),
                            Operand::Reg(Register::XMM14, RegSize::Quad),
                        ),
                    );
                    self.push(AsmInstruction::Cmp(AsmType::Double, Operand::Reg(Register::XMM14, RegSize::Quad), s));
                    self.push(AsmInstruction::Mov(dstt, Operand::Imm(0), d.duplicate()));
                    self.push(AsmInstruction::SetCC(Condition::E, d.duplicate()));
                    self.push(AsmInstruction::SetCC(Condition::NP, Operand::Reg(Register::R11, RegSize::Byte)));
                    self.push(
                        AsmInstruction::Binary(BinaryOp::BitAnd, AsmType::Byte, Operand::Reg(Register::R11, RegSize::Byte), d),
                    );
                }
            },
        }
    }

    fn binary_handler(&mut self, op: PoiseBinaryOp, src1: PoiseVal, src2: PoiseVal, dst: PoiseVal)
        requires
            old(self).statics.wf(),
            val_ok(old(self).syms(), src1@),
            val_ok(old(self).syms(), src2@),
            val_ok(old(self).syms(), dst@),
            !(op is Remainder && is_dbl(old(self).syms(), src1@)),
        ensures
            same_env(*old(self), *final(self)),
            final(self).cg() == c_binary(old(self).cg(), old(self).syms(), op, src1@, src2@, dst@),
            final(self).count == old(self).count,
    {
        proof {
            reveal(c_binary);
        }
        let srct = self.get_asmtype(&src1);
        let dstt = self.get_asmtype(&dst);
        let srcd = self.is_double(&src1);
        let signed = if !srcd { self.get_num_type(&src1).is_signed() } else { false };
        let regsize = get_regsize(&srct);
        let s1 = self.gen_operand(src1);
        let s2 = self.gen_operand(src2);
        let d = self.gen_operand(dst);
        match op {
            PoiseBinaryOp::Add | PoiseBinaryOp::Subtract | PoiseBinaryOp::Multiply | PoiseBinaryOp::BitwiseAnd
            | PoiseBinaryOp::BitwiseOr | PoiseBinaryOp::BitwiseXor => {
                self.push(AsmInstruction::Mov(srct, s1, d.duplicate()));
                self.push(AsmInstruction::Binary(gen_binary(op, signed), srct, s2, d));
            },
            PoiseBinaryOp::Divide if srcd => {
                self.push(AsmInstruction::Mov(srct, s1, d.duplicate()));
                self.push(AsmInstruction::Binary(BinaryOp::DivDouble, srct, s2, d));
            },
            PoiseBinaryOp::Divide | PoiseBinaryOp::Remainder => {
                if signed {
                    self.push(AsmInstruction::Mov(srct, s1, Operand::Reg(Register::AX, regsize)));
                    self.push(AsmInstruction::Mov(srct, s2, Operand::Reg(Register::R10, regsize)));
                    self.push(AsmInstruction::Cdq(srct));
                    self.push(AsmInstruction::Idiv(srct, Operand::Reg(Register::R10, regsize)));
                    self.push(AsmInstruction::Mov(srct, Operand::Reg(gen_division(op), regsize), d));
                } else {
                    self.push(AsmInstruction::Mov(srct, s1, Operand::Reg(Register::AX, regsize)));
                    self.push(AsmInstruction::Mov(srct, s2, Operand::Reg(Register::R10, regsize)));
                    self.push(AsmInstruction::Mov(srct, Operand::Imm(0), Operand::Reg(Register::DX, regsize)));
                    self.push(AsmInstruction::Div(srct, Operand::Reg(Register::R10, regsize)));
                    self.push(AsmInstruction::Mov(srct, Operand::Reg(gen_division(op), regsize), d));
                }
            },
            PoiseBinaryOp::LeftShift | PoiseBinaryOp::RightShift => {
                self.push(AsmInstruction::Mov(srct, s1, d.duplicate()));
                match &s2 {
                    Operand::Imm(_) => {
                        self.push(AsmInstruction::Binary(gen_binary(op, signed), srct, s2, d));
                    },
                    _ => {
                        self.push(AsmInstruction::Mov(AsmType::Longword, s2, Operand::Reg(Register::R10, RegSize::Long)));
                        self.push(
                            AsmInstruction::Mov(
                                AsmType::Byte,
                                Operand::Reg(Register::R10, RegSize::Byte),
                                Operand::Reg(Register::CX, RegSize::Byte),
                            ),
                        );
                        self.push(
                            AsmInstruction::Binary(gen_binary(op, signed), srct, Operand::Reg(Register::CX, RegSize::Byte), d),
                        );
                    },
                }
            },
            _ => {
                self.push(AsmInstruction::Cmp(srct, s2, s1));
                self.push(AsmInstruction::Mov(dstt, Operand::Imm(0), d.duplicate()));
                if srcd {
                    let not_equal = matches!(op, PoiseBinaryOp::NotEqual);
                    self.push(AsmInstruction::SetCC(gen_conditional(op, signed), d.duplicate()));
                    if not_equal {
                        self.push(AsmInstruction::SetCC(Condition::P, Operand::Reg(Register::R11, RegSize::Byte)));
                        self.push(
                            AsmInstruction::Binary(BinaryOp::BitOr, AsmType::Byte, Operand::Reg(Register::R11, RegSize::Byte), d),
                        );
                    } else {
                        self.push(AsmInstruction::SetCC(Condition::NP, Operand::Reg(Register::R11, RegSize::Byte)));
                        self.push(
                            AsmInstruction::Binary(BinaryOp::BitAnd, AsmType::Byte, Operand::Reg(Register::R11, RegSize::Byte), d),
                        );
                    }
                } else {
                    self.push(AsmInstruction::SetCC(gen_conditional(op, signed), d));
                }
            },
        }
    }

    #[verifier::rlimit(40)]
    fn uint_to_double(&mut self, src: PoiseVal, dst: PoiseVal)
        requires
            old(self).statics.wf(),
            val_ok(old(self).syms(), src@),
            val_ok(old(self).syms(), dst@),
            val_type(old(self).syms(), src@) == AsmType::Longword || val_type(old(self).syms(), src@) == AsmType::Quadword,
            old(self).count + 2 <= usize::MAX,
        ensures
            same_env(*old(self), *final(self)),
            final(self).cg() == c_u2d(old(self).cg(), old(self).syms(), old(self).ident@, src@, dst@),
            final(self).count <= old(self).count + 2,
    {
        proof {
            reveal(c_u2d);
        }
        let srct = self.get_asmtype(&src);
        let regsize = get_regsize(&srct);
        let s = self.gen_operand(src);
        let d = self.gen_operand(dst);
        match srct {
            AsmType::Longword => {
                self.push(AsmInstruction::MovZeroExtend(s, Operand::Reg(Register::AX, RegSize::Long)));
                self.push(AsmInstruction::Cvtsi2sd(AsmType::Quadword, Operand::Reg(Register::AX, RegSize::Quad), d));
            },
            _ => {
                let lab1 = self.get_count();
                let lab2 = self.get_count();
                let ghost before = self.cg().out;
                let q = AsmType::Quadword;
                self.push(AsmInstruction::Cmp(q, Operand::Imm(0), s.duplicate()));
                self.push(AsmInstruction::JmpCC(Condition::L, lab1.clone()));
                self.push(AsmInstruction::Cvtsi2sd(q, s.duplicate(), d.duplicate()));
                self.push(AsmInstruction::Jmp(lab2.clone()));
                self.push(AsmInstruction::Label(lab1));
                self.push(AsmInstruction::Mov(q, s, Operand::Reg(Register::R10, regsize)));
                self.push(AsmInstruction::Mov(q, Operand::Reg(Register::R10, regsize), Operand::Reg(Register::R11, regsize)));
                self.push(AsmInstruction::Binary(BinaryOp::Shr, q, Operand::Imm(1), Operand::Reg(Register::R11, regsize)));
                self.push(AsmInstruction::Binary(BinaryOp::BitAnd, q, Operand::Imm(1), Operand::Reg(Register::R10, regsize)));
                self.push(
                    AsmInstruction::Binary(
                        BinaryOp::BitOr,
                        q,
                        Operand::Reg(Register::R10, regsize),
                        Operand::Reg(Register::R11, regsize),
                    ),
                );
                self.push(AsmInstruction::Cvtsi2sd(q, Operand::Reg(Register::R11, regsize), d.duplicate()));
                self.push(AsmInstruction::Binary(BinaryOp::Add, AsmType::Double, d.duplicate(), d));
                self.push(AsmInstruction::Label(lab2));
                assert(self.cg().out =~= c_u2d(old(self).cg(), old(self).syms(), old(self).ident@, src@, dst@).out);
            },
        }
    }

    #[verifier::rlimit(40)]
    fn double_to_uint(&mut self, src: PoiseVal, dst: PoiseVal)
        requires
            old(self).statics.wf(),
            val_ok(old(self).syms(), src@),
            val_ok(old(self).syms(), dst@),
            val_type(old(self).syms(), dst@) == AsmType::Longword || val_type(old(self).syms(), dst@) == AsmType::Quadword,
            old(self).count + 2 <= usize::MAX,
        ensures
            same_env(*old(self), *final(self)),
            final(self).cg() == c_d2u(old(self).cg(), old(self).syms(), old(self).ident@, src@, dst@),
            final(self).count <= old(self).count + 2,
    {
        proof {
            reveal(c_d2u);
        }
        let dstt = self.get_asmtype(&dst);
        let regsize = get_regsize(&dstt);
        let s = self.gen_operand(src);
        let d = self.gen_operand(dst);
        match dstt {
            AsmType::Longword => {
                self.push(AsmInstruction::Cvttsd2si(AsmType::Quadword, s, Operand::Reg(Register::AX, RegSize::Quad)));
                self.push(AsmInstruction::Mov(AsmType::Longword, Operand::Reg(Register::AX, regsize), d));
            },
            _ => {
                let lab1 = self.get_count();
                let lab2 = self.get_count();
                let mut v: Vec<char> = Vec::new();
                v.push('9');
                v.push('2');
                v.push('2');
                v.push('3');
                v.push('3');
                v.push('7');
                v.push('2');
                v.push('0');
                v.push('3');
                v.push('6');
                v.push('8');
                v.push('5');
                v.push('4');
                v.push('7');
                v.push('7');
                v.push('5');
                v.push('8');
                v.push('0');
                v.push('8');
                v.push('.');
                v.push('0');
                assert(v@ =~= two_63_text());
                let upper = self.intern_static(string_from_chars(&v), 8);
                let q = AsmType::Quadword;
                let x0 = Operand::Reg(Register::XMM0, RegSize::Quad);
                self.push(AsmInstruction::Cmp(AsmType::Double, Operand::Data(upper.clone()), s.duplicate()));
                self.push(AsmInstruction::JmpCC(Condition::AE, lab1.clone()));
                self.push(AsmInstruction::Cvttsd2si(q, s.duplicate(), d.duplicate()));
                self.push(AsmInstruction::Jmp(lab2.clone()));
                self.push(AsmInstruction::Label(lab1));
                self.push(AsmInstruction::Mov(AsmType::Double, s, x0.duplicate()));
                self.push(AsmInstruction::Binary(BinaryOp::Sub, AsmType::Double, Operand::Data(upper), x0.duplicate()));
                self.push(AsmInstruction::Cvttsd2si(q, x0, d.duplicate()));
                self.push(AsmInstruction::Mov(q, Operand::Imm(-9223372036854775808i64), Operand::Reg(Register::R10, RegSize::Quad)));
                self.push(AsmInstruction::Binary(BinaryOp::Add, q, Operand::Reg(Register::R10, RegSize::Quad), d));
                self.push(AsmInstruction::Label(lab2));
                assert(self.cg().out =~= c_d2u(old(self).cg(), old(self).syms(), old(self).ident@, src@, dst@).out);
            },
        }
    }

    fn copy_arg_reg(&mut self, num: usize, arg: Operand, arg_type: AsmType, is_float: bool)
        requires
            if is_float { num < 8 } else { num < 6 },
        ensures
            final(self).cg() == c_emit(old(self).cg(), AsmInstV::Mov(arg_type, arg@, reg(arg_reg(num as nat, is_float), arg_type))),
            final(self).ident == old(self).ident,
            final(self).symbols == old(self).symbols,
            final(self).statics == old(self).statics,
            final(self).count == old(self).count,
    {
        let arg_reg = get_func_reg(num, is_float);
        let arg_regsize = get_regsize(&arg_type);
        self.push(AsmInstruction::Mov(arg_type, arg, Operand::Reg(arg_reg, arg_regsize)))
    }

    fn copy_arg_stack(&mut self, arg: Operand, arg_type: AsmType)
        requires
            arg_type != AsmType::Byte,
        ensures
            final(self).cg() == c_arg_stack(old(self).cg(), arg@, arg_type),
            final(self).ident == old(self).ident,
            final(self).symbols == old(self).symbols,
            final(self).statics == old(self).statics,
            final(self).count == old(self).count,
    {
        match arg {
            Operand::Pseudo(_) | Operand::Stack(_) | Operand::Data(_) => match arg_type {
                AsmType::Longword => {
                    self.push(AsmInstruction::Mov(arg_type, arg, Operand::Reg(Register::AX, RegSize::Long)));
                    self.push(AsmInstruction::Push(Operand::Reg(Register::AX, RegSize::Quad)));
                },
                _ => self.push(AsmInstruction::Push(arg)),
            },
            Operand::Imm(_) | Operand::Reg(_, _) => self.push(AsmInstruction::Push(arg)),
        }
    }

    fn copy_arg(&mut self, count: &mut FuncNum, arg: &PoiseVal)
        requires
            old(self).statics.wf(),
            val_ok(old(self).syms(), arg@),
            old(count).int_param <= 6,
            old(count).float_param <= 8,
            old(count).stack < usize::MAX,
        ensures
            same_env(*old(self), *final(self)),
            (final(self).cg(), arg_pos(*final(count))) == c_copy_arg(old(self).cg(), arg_pos(*old(count)), old(self).syms(), arg@),
            final(self).count == old(self).count,
            final(count).int_param <= 6,
            final(count).float_param <= 8,
            final(count).stack <= old(count).stack + 1,
    {
        let arg_type = self.get_asmtype(arg);
        if arg_type != AsmType::Double {
            let (is_reg, num) = count.get_int();
            let asm_arg = self.gen_operand(arg.duplicate());
            if is_reg {
                self.copy_arg_reg(num, asm_arg, arg_type, false)
            } else {
                self.copy_arg_stack(asm_arg, arg_type)
            }
        } else {
            let (is_reg, num) = count.get_float();
            let asm_arg = self.gen_operand(arg.duplicate());
            if is_reg {
                self.copy_arg_reg(num, asm_arg, arg_type, true)
            } else {
                self.copy_arg_stack(asm_arg, arg_type)
            }
        }
    }

    /// Copies `args` in order, as the calling convention places them.
    fn copy_args(&mut self, count: &mut FuncNum, args: &Vec<PoiseVal>)
        requires
            old(self).statics.wf(),
            forall|k: int| 0 <= k < args@.len() ==> val_ok(old(self).syms(), #[trigger] args@[k]@),
            old(count).int_param <= 6,
            old(count).float_param <= 8,
            old(count).stack + args@.len() < usize::MAX,
        ensures
            same_env(*old(self), *final(self)),
            (final(self).cg(), arg_pos(*final(count))) == c_copy_args(old(self).cg(), arg_pos(*old(count)), old(self).syms(), vals_view(args@)),
            final(self).count == old(self).count,
            final(count).int_param <= 6,
            final(count).float_param <= 8,
            final(count).stack <= old(count).stack + args@.len(),
    {
        let ghost av = vals_view(args@);
        let mut j: usize = 0;
        assert(av.subrange(0, 0) =~= Seq::<PValV>::empty());
        while j < args.len()
            invariant
                j <= args@.len(),
                av == vals_view(args@),
                av.len() == args@.len(),
                same_env(*old(self), *self),
                forall|k: int| 0 <= k < args@.len() ==> val_ok(old(self).syms(), #[trigger] args@[k]@),
                (self.cg(), arg_pos(*count)) == c_copy_args(old(self).cg(), arg_pos(*old(count)), old(self).syms(), av.subrange(0, j as int)),
                self.count == old(self).count,
                count.int_param <= 6,
                count.float_param <= 8,
                count.stack <= old(count).stack + j,
                old(count).stack + args@.len() < usize::MAX,
            decreases args@.len() - j,
        {
            self.copy_arg(count, &args[j]);
            assert(av.subrange(0, j + 1).drop_last() =~= av.subrange(0, j as int));
            assert(av.subrange(0, j + 1).last() == args@[j as int]@);
            j = j + 1;
        }
        assert(av.subrange(0, j as int) =~= av);
    }

    fn call_handler(&mut self, ident: String, args: &Vec<PoiseVal>, dst: PoiseVal)
        requires
            old(self).statics.wf(),
            val_ok(old(self).syms(), dst@),
            forall|k: int| 0 <= k < args@.len() ==> val_ok(old(self).syms(), #[trigger] args@[k]@),
            args@.len() < 0x800_0000,
        ensures
            same_env(*old(self), *final(self)),
            final(self).cg() == c_call(old(self).cg(), old(self).syms(), ident@, vals_view(args@), dst@),
            final(self).count == old(self).count,
    {
        proof {
            reveal(c_call);
        }
        let ghost syms = self.syms();
        let ghost av = vals_view(args@);
        let mut gp6: Vec<PoiseVal> = Vec::new();
        let mut fp8: Vec<PoiseVal> = Vec::new();
        let mut stack: Vec<PoiseVal> = Vec::new();
        let mut i: usize = 0;
        assert(av.subrange(0, 0) =~= Seq::<PValV>::empty());
        assert(vals_view(gp6@) =~= Seq::<PValV>::empty());
        while i < args.len()
            invariant
                i <= args@.len(),
                av == vals_view(args@),
                av.len() == args@.len(),
                syms == self.syms(),
                forall|k: int| 0 <= k < args@.len() ==> val_ok(syms, #[trigger] args@[k]@),
                (vals_view(gp6@), vals_view(fp8@), vals_view(stack@)) == partition(syms, av.subrange(0, i as int)),
                gp6@.len() + fp8@.len() + stack@.len() == i,
                forall|k: int| 0 <= k < gp6@.len() ==> val_ok(syms, #[trigger] gp6@[k]@),
                forall|k: int| 0 <= k < fp8@.len() ==> val_ok(syms, #[trigger] fp8@[k]@),
                forall|k: int| 0 <= k < stack@.len() ==> val_ok(syms, #[trigger] stack@[k]@),
            decreases args@.len() - i,
        {
            let dbl = self.is_double(&args[i]);
            let a = args[i].duplicate();
            assert(av.subrange(0, i + 1).drop_last() =~= av.subrange(0, i as int));
            assert(av.subrange(0, i + 1).last() == a@);
            let ghost (g0, f0, s0) = (gp6@, fp8@, stack@);
            if !dbl && gp6.len() < 6 {
                gp6.push(a);
                assert(vals_view(gp6@) =~= vals_view(g0).push(a@));
            } else if dbl && fp8.len() < 8 {
                fp8.push(a);
                assert(vals_view(fp8@) =~= vals_view(f0).push(a@));
            } else {
                stack.push(a);
                assert(vals_view(stack@) =~= vals_view(s0).push(a@));
            }
            i = i + 1;
        }
        assert(av.subrange(0, i as int) =~= av);
        let ghost st0 = self.cg();
        let mut stack_padding: i32 = 0;
        if stack.len() % 2 != 0 {
            stack_padding = 8;
            self.push(
                AsmInstruction::Binary(BinaryOp::Sub, AsmType::Quadword, Operand::Imm(8), Operand::Reg(Register::SP, RegSize::Quad)),
            );
        }
        let removal_bytes: i32 = 8 * (stack.len() as i32) + stack_padding;
        let mut arg_count = FuncNum::new();
        self.copy_args(&mut arg_count, &gp6);
        self.copy_args(&mut arg_count, &fp8);
        let ghost sv = vals_view(stack@);
        let ghost rv = sv.reverse();
        let ghost st3 = self.cg();
        let ghost n3 = arg_pos(arg_count);
        assert(rv.subrange(0, 0) =~= Seq::<PValV>::empty());
        let mut k: usize = 0;
        while k < stack.len()
            invariant
                k <= stack@.len(),
                sv == vals_view(stack@),
                sv.len() == stack@.len(),
                rv == sv.reverse(),
                same_env(*old(self), *self),
                syms == self.syms(),
                forall|m: int| 0 <= m < stack@.len() ==> val_ok(syms, #[trigger] stack@[m]@),
                (self.cg(), arg_pos(arg_count)) == c_copy_args(st3, n3, syms, rv.subrange(0, k as int)),
                self.count == old(self).count,
                arg_count.int_param <= 6,
                arg_count.float_param <= 8,
                arg_count.stack <= gp6@.len() + fp8@.len() + k,
                gp6@.len() + fp8@.len() + stack@.len() < 0x800_0000,
            decreases stack@.len() - k,
        {
            let idx = stack.len() - 1 - k;
            self.copy_arg(&mut arg_count, &stack[idx]);
            assert(rv[k as int] == sv[idx as int]);
            assert(rv.subrange(0, k + 1).drop_last() =~= rv.subrange(0, k as int));
            k = k + 1;
        }
        assert(rv.subrange(0, k as int) =~= rv);
        self.push(AsmInstruction::Call(ident));
        if removal_bytes != 0 {
            self.push(
                AsmInstruction::Binary(
                    BinaryOp::Add,
                    AsmType::Quadword,
                    Operand::Imm(removal_bytes as i64),
                    Operand::Reg(Register::SP, RegSize::Quad),
                ),
            );
        }
        let dst_type = self.get_asmtype(&dst);
        let dst_regsize = get_regsize(&dst_type);
        let d = self.gen_operand(dst);
        if dst_type != AsmType::Double {
            self.push(AsmInstruction::Mov(dst_type, Operand::Reg(Register::AX, dst_regsize), d));
        } else {
            self.push(AsmInstruction::Mov(dst_type, Operand::Reg(Register::XMM0, dst_regsize), d));
        }
    }

    /// The assembly of one instruction of the intermediate form.
    #[verifier::rlimit(60)]
    fn gen_instruction(&mut self, instruction: &PoiseInstruction)
        requires
            old(self).statics.wf(),
            inst_ok(old(self).syms(), instruction@),
            old(self).count + 2 <= usize::MAX,
        ensures
            same_env(*old(self), *final(self)),
            final(self).cg() == c_inst(old(self).cg(), old(self).syms(), old(self).ident@, instruction@),
            final(self).count <= old(self).count + 2,
    {
        match instruction {
            PoiseInstruction::Return(val) => {
                let asmtype = self.get_asmtype(val);
                let regsize = get_regsize(&asmtype);
                let v = self.gen_operand(val.duplicate());
                if asmtype != AsmType::Double {
                    self.push(AsmInstruction::Mov(asmtype, v, Operand::Reg(Register::AX, regsize)));
                } else {
                    self.push(AsmInstruction::Mov(asmtype, v, Operand::Reg(Register::XMM0, regsize)));
                }
                self.push(AsmInstruction::Ret);
            },
            PoiseInstruction::Unary { op, src, dst } => {
                self.unary_handler(*op, src.duplicate(), dst.duplicate());
            },
            PoiseInstruction::Binary { op, src1, src2, dst } => {
                self.binary_handler(*op, src1.duplicate(), src2.duplicate(), dst.duplicate());
            },
            PoiseInstruction::Jump(id) => self.push(AsmInstruction::Jmp(id.clone())),
            PoiseInstruction::JumpIfZero { condition: cnd, identifier: id } => {
                let cndt = self.get_asmtype(cnd);
                let dbl = self.is_double(cnd);
                let cndv = self.gen_operand(cnd.duplicate());
                if !dbl {
                    self.push(AsmInstruction::Cmp(cndt, Operand::Imm(0), cndv));
                    self.push(AsmInstruction::JmpCC(Condition::E, id.clone()))
                } else {
                    let scratch = Operand::Reg(Register::XMM0, RegSize::Quad);
                    let parity_jmptgt = self.get_count();
                    self.push(AsmInstruction::Binary(BinaryOp::BitXor, cndt, scratch.duplicate(), scratch.duplicate()));
                    self.push(AsmInstruction::Cmp(AsmType::Double, scratch, cndv));
                    self.push(AsmInstruction::JmpCC(Condition::P, parity_jmptgt.clone()));
                    self.push(AsmInstruction::JmpCC(Condition::E, id.clone()));
                    self.push(AsmInstruction::Label(parity_jmptgt));
                    assert(self.cg().out =~= c_inst(old(self).cg(), old(self).syms(), old(self).ident@, instruction@).out);
                }
            },
            PoiseInstruction::JumpIfNotZero { condition: cnd, identifier: id } => {
                let cndt = self.get_asmtype(cnd);
                let dbl = self.is_double(cnd);
                let cndv = self.gen_operand(cnd.duplicate());
                if !dbl {
                    self.push(AsmInstruction::Cmp(cndt, Operand::Imm(0), cndv));
                    self.push(AsmInstruction::JmpCC(Condition::NE, id.clone()));
                } else {
                    let scratch = Operand::Reg(Register::XMM0, RegSize::Quad);
                    self.push(AsmInstruction::Binary(BinaryOp::BitXor, cndt, scratch.duplicate(), scratch.duplicate()));
                    self.push(AsmInstruction::Cmp(AsmType::Double, scratch, cndv));
                    self.push(AsmInstruction::JmpCC(Condition::P, id.clone()));
                    self.push(AsmInstruction::JmpCC(Condition::NE, id.clone()));
                    assert(self.cg().out =~= c_inst(old(self).cg(), old(self).syms(), old(self).ident@, instruction@).out);
                }
            },
            PoiseInstruction::Copy { src, dst } => {
                let t = self.get_asmtype(src);
                let s = self.gen_operand(src.duplicate());
                let d = self.gen_operand(dst.duplicate());
                self.push(AsmInstruction::Mov(t, s, d))
            },
            PoiseInstruction::Label(id) => self.push(AsmInstruction::Label(id.clone())),
            PoiseInstruction::FunctionCall { ident, args, dst } => {
                assert forall|k: int| 0 <= k < args@.len() implies val_ok(old(self).syms(), #[trigger] args@[k]@) by {
                    assert(vals_view(args@)[k] == args@[k]@);
                }
                self.call_handler(ident.clone(), args, dst.duplicate());
            },
            PoiseInstruction::SignExtend { src, dst } => {
                let s = self.gen_operand(src.duplicate());
                let d = self.gen_operand(dst.duplicate());
                self.push(AsmInstruction::Movsx(s, d));
            },
            PoiseInstruction::Truncate { src, dst } => {
                let s = self.gen_operand(src.duplicate());
                let d = self.gen_operand(dst.duplicate());
                self.push(AsmInstruction::Mov(AsmType::Longword, s, d));
            },
            PoiseInstruction::ZeroExtend { src, dst } => {
                let s = self.gen_operand(src.duplicate());
                let d = self.gen_operand(dst.duplicate());
                self.push(AsmInstruction::MovZeroExtend(s, d));
            },
            PoiseInstruction::IntToDouble { src, dst } => {
                let t = self.get_asmtype(src);
                let s = self.gen_operand(src.duplicate());
                let d = self.gen_operand(dst.duplicate());
                self.push(AsmInstruction::Cvtsi2sd(t, s, d));
            },
            PoiseInstruction::DoubleToInt { src, dst } => {
                let t = self.get_asmtype(dst);
                let s = self.gen_operand(src.duplicate());
                let d = self.gen_operand(dst.duplicate());
                self.push(AsmInstruction::Cvttsd2si(t, s, d));
            },
            PoiseInstruction::UIntToDouble { src, dst } => self.uint_to_double(src.duplicate(), dst.duplicate()),
            PoiseInstruction::DoubleToUInt { src, dst } => self.double_to_uint(src.duplicate(), dst.duplicate()),
        }
    }

    /// The assembly of a function body, instruction by instruction.
    fn gen_instructions(&mut self, instructions: Vec<PoiseInstruction>)
        requires
            old(self).statics.wf(),
            forall|k: int| 0 <= k < instructions@.len() ==> inst_ok(old(self).syms(), #[trigger] instructions@[k]@),
            old(self).count + 2 * instructions@.len() <= usize::MAX,
        ensures
            same_env(*old(self), *final(self)),
            final(self).cg() == c_insts(old(self).cg(), old(self).syms(), old(self).ident@, insts_view(instructions@)),
            final(self).count <= old(self).count + 2 * instructions@.len(),
    {
        let ghost iv = insts_view(instructions@);
        assert(iv.subrange(0, 0) =~= Seq::<PInstV>::empty());
        let mut i: usize = 0;
        while i < instructions.len()
            invariant
                i <= instructions@.len(),
                iv == insts_view(instructions@),
                iv.len() == instructions@.len(),
                same_env(*old(self), *self),
                forall|k: int| 0 <= k < instructions@.len() ==> inst_ok(old(self).syms(), #[trigger] instructions@[k]@),
                self.cg() == c_insts(old(self).cg(), old(self).syms(), old(self).ident@, iv.subrange(0, i as int)),
                self.count <= old(self).count + 2 * i,
                old(self).count + 2 * instructions@.len() <= usize::MAX,
            decreases instructions@.len() - i,
        {
            self.gen_instruction(&instructions[i]);
            assert(iv.subrange(0, i + 1).drop_last() =~= iv.subrange(0, i as int));
            assert(iv.subrange(0, i + 1).last() == instructions@[i as int]@);
            i = i + 1;
        }
        assert(iv.subrange(0, i as int) =~= iv);
    }

    fn copy_reg(&self, num: usize, param: String, param_type: AsmType, is_float: bool) -> (r: AsmInstruction)
        requires
            if is_float { num < 8 } else { num < 6 },
        ensures
            r@ == AsmInstV::Mov(param_type, reg(arg_reg(num as nat, is_float), param_type), OperandV::Pseudo(param@)),
    {
        let param_reg = get_func_reg(num, is_float);
        let param_regsize = get_regsize(&param_type);
        AsmInstruction::Mov(param_type, Operand::Reg(param_reg, param_regsize), Operand::Pseudo(param))
    }

    fn copy_stack(&self, num: usize, param: String, param_type: AsmType) -> (r: AsmInstruction)
        requires
            num < 0x800_0000,
        ensures
            r@ == AsmInstV::Mov(param_type, OperandV::Stack((num * 8 + 16) as i32), OperandV::Pseudo(param@)),
    {
        let offset = (num * 8) + 16;
        AsmInstruction::Mov(param_type, Operand::Stack(offset as i32), Operand::Pseudo(param))
    }

    /// The instruction that copies a parameter from its register or stack slot.
    fn copy_param(&self, count: &mut FuncNum, param: String) -> (r: AsmInstruction)
        requires
            val_ok(self.syms(), PValV::Variable(param@)),
            old(count).int_param <= 6,
            old(count).float_param <= 8,
            old(count).stack < 0x800_0000,
        ensures
            (r@, arg_pos(*final(count))) == c_param(self.syms(), arg_pos(*old(count)), param@),
            final(count).int_param <= 6,
            final(count).float_param <= 8,
            final(count).stack <= old(count).stack + 1,
    {
        let param_type = self.get_var_type(&param);
        if param_type != AsmType::Double {
            let (is_reg, num) = count.get_int();
            if is_reg {
                self.copy_reg(num, param, param_type, false)
            } else {
                self.copy_stack(num, param, param_type)
            }
        } else {
            let (is_reg, num) = count.get_float();
            if is_reg {
                self.copy_reg(num, param, param_type, true)
            } else {
                self.copy_stack(num, param, param_type)
            }
        }
    }

    /// The assembly of a function: its parameters copied in, then its body.
    /// The constants it interned are handed back.
    #[verifier::rlimit(40)]
    fn gen_function(self, func: PoiseFunc) -> (r: (AsmFunction, Statics))
        requires
            self.generated@.len() == 0,
            self.count == 0,
            self.statics.wf(),
            self.ident@ == func.identifier@,
            func_ok(self.syms(), func@),
        ensures
            ({
                let st = c_function(consts_view(self.statics.statics_map@), self.syms(), func@);
                &&& r.0.identifier@ == func.identifier@
                &&& r.0.global == func.global
                &&& asm_view(r.0.body@) == st.out
                &&& consts_view(r.1.statics_map@) == st.consts
                &&& r.1.wf()
            }),
    {
        let mut fg = self;
        let ghost syms = fg.syms();
        let ghost id0 = fg.ident@;
        let ghost pv = func@.params;
        let ghost consts0 = consts_view(fg.statics.statics_map@);
        let identifier = func.identifier;
        let mut param_count = FuncNum::new();
        let ghost n0 = ArgPos { ints: 0, floats: 0, stack: 0 };
        assert(pv.subrange(0, 0) =~= Seq::<Seq<char>>::empty());
        assert(asm_view(fg.generated@) =~= Seq::<AsmInstV>::empty());
        let mut i: usize = 0;
        while i < func.params.len()
            invariant
                i <= func.params@.len(),
                pv == func.params@.map_values(|p: String| p@),
                pv.len() == func.params@.len(),
                syms == fg.syms(),
                id0 == fg.ident@,
                id0 == func.identifier@,
                func_ok(syms, func@),
                func@.params == pv,
                (asm_view(fg.generated@), arg_pos(param_count)) == c_params(syms, n0, pv.subrange(0, i as int)),
                fg.count == 0,
                fg.statics.wf(),
                consts_view(fg.statics.statics_map@) == consts0,
                param_count.int_param <= 6,
                param_count.float_param <= 8,
                param_count.stack <= i,
            decreases func.params@.len() - i,
        {
            assert(pv[i as int] == func.params@[i as int]@);
            let inst = fg.copy_param(&mut param_count, func.params[i].clone());
            let ghost before = fg.generated@;
            fg.generated.push(inst);
            assert(asm_view(fg.generated@) =~= asm_view(before).push(inst@));
            assert(pv.subrange(0, i + 1).drop_last() =~= pv.subrange(0, i as int));
            i = i + 1;
        }
        assert(pv.subrange(0, i as int) =~= pv);
        assert forall|k: int| 0 <= k < func.body@.len() implies inst_ok(syms, #[trigger] func.body@[k]@) by {
            assert(func@.body[k] == func.body@[k]@);
        }
        let ghost fv = func@;
        assert(fg.cg() == CG { out: c_params(syms, n0, pv).0, consts: consts0, count: 0 });
        fg.gen_instructions(func.body);
        assert(fg.cg() == c_function(consts0, syms, fv));
        (AsmFunction { identifier, global: func.global, body: fg.generated }, fg.statics)
    }
}

/// The positions a [`FuncNum`] has handed out.
pub open spec fn arg_pos(c: FuncNum) -> ArgPos {
    ArgPos { ints: c.int_param as nat, floats: c.float_param as nat, stack: c.stack as nat }
}


/// The functions the generator handles: arithmetic parameters, fewer than
/// 2^27 of them, handled instructions, and a body short enough to count
/// labels for.
pub open spec fn func_ok(syms: SymbolTable, f: PoiseFuncV) -> bool {
    &&& f.params.len() < 0x800_0000
    &&& forall|k: int| 0 <= k < f.params.len() ==> val_ok(syms, PValV::Variable(#[trigger] f.params[k]))
    &&& forall|k: int| 0 <= k < f.body.len() ==> inst_ok(syms, #[trigger] f.body[k])
    &&& 2 * f.body.len() <= usize::MAX
}

/// The assembly of a function, starting from the constants `consts`.
pub open spec fn c_function(consts: Seq<(Seq<char>, usize)>, syms: SymbolTable, f: PoiseFuncV) -> CG {
    let (pi, _) = c_params(syms, ArgPos { ints: 0, floats: 0, stack: 0 }, f.params);
    c_insts(CG { out: pi, consts, count: 0 }, syms, f.identifier, f.body)
}


/// A pseudo-register operand names an object of arithmetic type.
pub open spec fn op_ok(syms: SymbolTable, o: OperandV) -> bool {
    o matches OperandV::Pseudo(n) ==> val_ok(syms, PValV::Variable(n))
}

/// Every operand of `i` satisfies [`op_ok`].
pub open spec fn ainst_ok(syms: SymbolTable, i: AsmInstV) -> bool {
    match i {
        AsmInstV::Mov(_, a, b) | AsmInstV::Movsx(a, b) | AsmInstV::MovZeroExtend(a, b) | AsmInstV::Binary(_, _, a, b)
        | AsmInstV::Cmp(_, a, b) | AsmInstV::Cvttsd2si(_, a, b) | AsmInstV::Cvtsi2sd(_, a, b) => op_ok(syms, a) && op_ok(
            syms,
            b,
        ),
        AsmInstV::Unary(_, _, a) | AsmInstV::Idiv(_, a) | AsmInstV::Div(_, a) | AsmInstV::SetCC(_, a) | AsmInstV::Push(
            a,
        ) => op_ok(syms, a),
        _ => true,
    }
}

/// `b` is `a` followed by at most `w` instructions, each satisfying [`ainst_ok`].
pub open spec fn ext(syms: SymbolTable, a: Seq<AsmInstV>, b: Seq<AsmInstV>, w: nat) -> bool {
    &&& a.len() <= b.len() <= a.len() + w
    &&& forall|k: int| 0 <= k < a.len() ==> b[k] == a[k]
    &&& forall|k: int| a.len() <= k < b.len() ==> ainst_ok(syms, #[trigger] b[k])
}

proof fn lemma_ext_trans(syms: SymbolTable, a: Seq<AsmInstV>, b: Seq<AsmInstV>, c: Seq<AsmInstV>, w1: nat, w2: nat)
    requires
        ext(syms, a, b, w1),
        ext(syms, b, c, w2),
    ensures
        ext(syms, a, c, w1 + w2),
{
    assert forall|k: int| a.len() <= k < c.len() implies ainst_ok(syms, #[trigger] c[k]) by {
        if k < b.len() {
            assert(c[k] == b[k]);
        }
    }
}

/// The most instructions one instruction of the intermediate form turns into.
pub open spec fn inst_weight(i: PInstV) -> nat {
    match i {
        PInstV::FunctionCall { args, .. } => 4 + 2 * args.len(),
        _ => 13,
    }
}

pub open spec fn insts_weight(is: Seq<PInstV>) -> nat
    decreases is.len(),
{
    if is.len() == 0 {
        0
    } else {
        insts_weight(is.drop_last()) + inst_weight(is.last())
    }
}

proof fn lemma_copy_arg_ext(st: CG, n: ArgPos, syms: SymbolTable, arg: PValV)
    requires
        val_ok(syms, arg),
    ensures
        ext(syms, st.out, c_copy_arg(st, n, syms, arg).0.out, 2),
{
    reveal(c_op);
}

proof fn lemma_copy_args_ext(st: CG, n: ArgPos, syms: SymbolTable, args: Seq<PValV>)
    requires
        forall|k: int| 0 <= k < args.len() ==> val_ok(syms, #[trigger] args[k]),
    ensures
        ext(syms, st.out, c_copy_args(st, n, syms, args).0.out, 2 * args.len()),
    decreases args.len(),
{
    if args.len() > 0 {
        let (st1, n1) = c_copy_args(st, n, syms, args.drop_last());
        lemma_copy_args_ext(st, n, syms, args.drop_last());
        assert(val_ok(syms, args[args.len() - 1]));
        lemma_copy_arg_ext(st1, n1, syms, args.last());
        lemma_ext_trans(syms, st.out, st1.out, c_copy_args(st, n, syms, args).0.out, (2 * (args.len() - 1)) as nat, 2);
    }
}

proof fn lemma_partition(syms: SymbolTable, args: Seq<PValV>)
    requires
        forall|k: int| 0 <= k < args.len() ==> val_ok(syms, #[trigger] args[k]),
    ensures
        ({
            let (g, f, s) = partition(syms, args);
            &&& g.len() + f.len() + s.len() == args.len()
            &&& forall|k: int| 0 <= k < g.len() ==> val_ok(syms, #[trigger] g[k])
            &&& forall|k: int| 0 <= k < f.len() ==> val_ok(syms, #[trigger] f[k])
            &&& forall|k: int| 0 <= k < s.len() ==> val_ok(syms, #[trigger] s[k])
        }),
    decreases args.len(),
{
    if args.len() > 0 {
        lemma_partition(syms, args.drop_last());
        assert(val_ok(syms, args[args.len() - 1]));
    }
}

#[verifier::rlimit(60)]
proof fn lemma_call_ext(st: CG, syms: SymbolTable, f: Seq<char>, args: Seq<PValV>, dst: PValV)
    requires
        val_ok(syms, dst),
        forall|k: int| 0 <= k < args.len() ==> val_ok(syms, #[trigger] args[k]),
    ensures
        ext(syms, st.out, c_call(st, syms, f, args, dst).out, 4 + 2 * args.len()),
{
    reveal(c_call);
    let (g, fl, stk) = partition(syms, args);
    lemma_partition(syms, args);
    let pad = stk.len() % 2 != 0;
    let st1 = if pad {
        c_emit(st, AsmInstV::Binary(BinaryOp::Sub, AsmType::Quadword, OperandV::Imm(8), OperandV::Reg(Register::SP, RegSize::Quad)))
    } else {
        st
    };
    assert(ext(syms, st.out, st1.out, 1));
    let n0 = ArgPos { ints: 0, floats: 0, stack: 0 };
    let (st2, n2) = c_copy_args(st1, n0, syms, g);
    lemma_copy_args_ext(st1, n0, syms, g);
    let (st3, n3) = c_copy_args(st2, n2, syms, fl);
    lemma_copy_args_ext(st2, n2, syms, fl);
    let rv = stk.reverse();
    assert forall|k: int| 0 <= k < rv.len() implies val_ok(syms, #[trigger] rv[k]) by {
        assert(rv[k] == stk[stk.len() - 1 - k]);
    }
    let (st4, _) = c_copy_args(st3, n3, syms, rv);
    lemma_copy_args_ext(st3, n3, syms, rv);
    lemma_ext_trans(syms, st.out, st1.out, st2.out, 1, 2 * g.len());
    lemma_ext_trans(syms, st.out, st2.out, st3.out, 1 + 2 * g.len(), 2 * fl.len());
    lemma_ext_trans(syms, st.out, st3.out, st4.out, 1 + 2 * g.len() + 2 * fl.len(), 2 * rv.len());
    let r = c_call(st, syms, f, args, dst);
    let st5 = c_emit(st4, AsmInstV::Call(f));
    let removal = 8 * stk.len() + if pad { 8int } else { 0int };
    let st6 = if removal != 0 {
        c_emit(
            st5,
            AsmInstV::Binary(BinaryOp::Add, AsmType::Quadword, OperandV::Imm(removal as i64), OperandV::Reg(Register::SP, RegSize::Quad)),
        )
    } else {
        st5
    };
    lemma_c_op(st6, syms, dst);
    assert(ext(syms, st4.out, r.out, 3));
    lemma_ext_trans(syms, st.out, st4.out, r.out, 1 + 2 * g.len() + 2 * fl.len() + 2 * rv.len(), 3);
}

/// An operand adds no instruction and names only what a valid value names.
proof fn lemma_c_op(st: CG, syms: SymbolTable, v: PValV)
    ensures
        c_op(st, v).0.out == st.out,
        c_op(st, v).0.count == st.count,
        val_ok(syms, v) ==> op_ok(syms, c_op(st, v).1),
{
    reveal(c_op);
}

#[verifier::rlimit(60)]
proof fn lemma_inst_ext(st: CG, syms: SymbolTable, ident: Seq<char>, i: PInstV)
    requires
        inst_ok(syms, i),
    ensures
        ext(syms, st.out, c_inst(st, syms, ident, i).out, inst_weight(i)),
{
    match i {
        PInstV::FunctionCall { ident: f, args, dst } => {
            lemma_call_ext(st, syms, f, args, dst);
        },
        PInstV::Unary { op, src, dst } => {
            lemma_unary_ext(st, syms, op, src, dst);
        },
        PInstV::Binary { op, src1, src2, dst } => {
            lemma_binary_ext(st, syms, op, src1, src2, dst);
        },
        PInstV::UIntToDouble { src, dst } => {
            lemma_u2d_ext(st, syms, ident, src, dst);
        },
        PInstV::DoubleToUInt { src, dst } => {
            lemma_d2u_ext(st, syms, ident, src, dst);
        },
        PInstV::Return(v) => {
            lemma_c_op(st, syms, v);
        },
        PInstV::JumpIfZero { condition, .. } | PInstV::JumpIfNotZero { condition, .. } => {
            lemma_c_op(st, syms, condition);
        },
        PInstV::Copy { src, dst } | PInstV::SignExtend { src, dst } | PInstV::Truncate { src, dst }
        | PInstV::ZeroExtend { src, dst } | PInstV::IntToDouble { src, dst } | PInstV::DoubleToInt { src, dst } => {
            lemma_c_op(st, syms, src);
            lemma_c_op(c_op(st, src).0, syms, dst);
        },
        _ => {},
    }
}

#[verifier::rlimit(60)]
proof fn lemma_unary_ext(st: CG, syms: SymbolTable, op: PoiseUnaryOp, src: PValV, dst: PValV)
    requires
        val_ok(syms, src),
        val_ok(syms, dst),
    ensures
        ext(syms, st.out, c_unary(st, syms, op, src, dst).out, 13),
{
    reveal(c_op);
    reveal(c_unary);
}

#[verifier::rlimit(60)]
proof fn lemma_binary_ext(st: CG, syms: SymbolTable, op: PoiseBinaryOp, src1: PValV, src2: PValV, dst: PValV)
    requires
        val_ok(syms, src1),
        val_ok(syms, src2),
        val_ok(syms, dst),
    ensures
        ext(syms, st.out, c_binary(st, syms, op, src1, src2, dst).out, 13),
{
    reveal(c_op);
    reveal(c_binary);
}

#[verifier::rlimit(60)]
proof fn lemma_u2d_ext(st: CG, syms: SymbolTable, ident: Seq<char>, src: PValV, dst: PValV)
    requires
        val_ok(syms, src),
        val_ok(syms, dst),
    ensures
        ext(syms, st.out, c_u2d(st, syms, ident, src, dst).out, 13),
{
    reveal(c_op);
    reveal(c_u2d);
}

#[verifier::rlimit(60)]
proof fn lemma_d2u_ext(st: CG, syms: SymbolTable, ident: Seq<char>, src: PValV, dst: PValV)
    requires
        val_ok(syms, src),
        val_ok(syms, dst),
    ensures
        ext(syms, st.out, c_d2u(st, syms, ident, src, dst).out, 13),
{
    reveal(c_op);
    reveal(c_d2u);
}

proof fn lemma_insts_ext(st: CG, syms: SymbolTable, ident: Seq<char>, is: Seq<PInstV>)
    requires
        forall|k: int| 0 <= k < is.len() ==> inst_ok(syms, #[trigger] is[k]),
    ensures
        ext(syms, st.out, c_insts(st, syms, ident, is).out, insts_weight(is)),
    decreases is.len(),
{
    if is.len() > 0 {
        let st1 = c_insts(st, syms, ident, is.drop_last());
        lemma_insts_ext(st, syms, ident, is.drop_last());
        assert(inst_ok(syms, is[is.len() - 1]));
        lemma_inst_ext(st1, syms, ident, is.last());
        lemma_ext_trans(syms, st.out, st1.out, c_insts(st, syms, ident, is).out, insts_weight(is.drop_last()), inst_weight(is.last()));
    }
}

proof fn lemma_params_ext(syms: SymbolTable, n: ArgPos, ps: Seq<Seq<char>>)
    requires
        forall|k: int| 0 <= k < ps.len() ==> val_ok(syms, PValV::Variable(#[trigger] ps[k])),
    ensures
        ext(syms, Seq::empty(), c_params(syms, n, ps).0, ps.len()),
    decreases ps.len(),
{
    if ps.len() > 0 {
        lemma_params_ext(syms, n, ps.drop_last());
        assert(val_ok(syms, PValV::Variable(ps[ps.len() - 1])));
    }
}

/// What a function turns into names only objects of the symbol table, and
/// has at most one instruction per parameter plus the weight of its body.
pub proof fn lemma_function_ext(consts: Seq<(Seq<char>, usize)>, syms: SymbolTable, f: PoiseFuncV)
    requires
        func_ok(syms, f),
    ensures
        ext(syms, Seq::empty(), c_function(consts, syms, f).out, f.params.len() + insts_weight(f.body)),
{
    let n0 = ArgPos { ints: 0, floats: 0, stack: 0 };
    lemma_params_ext(syms, n0, f.params);
    let (pi, _) = c_params(syms, n0, f.params);
    lemma_insts_ext(CG { out: pi, consts, count: 0 }, syms, f.identifier, f.body);
    lemma_ext_trans(syms, Seq::empty(), pi, c_function(consts, syms, f).out, f.params.len(), insts_weight(f.body));
}


/// Whether `n` begins like the names of interned constants, `.L.constant.`.
pub open spec fn has_const_prefix(n: Seq<char>) -> bool {
    n.len() >= 12 && n.subrange(0, 12) == seq!['.', 'L', '.', 'c', 'o', 'n', 's', 't', 'a', 'n', 't', '.']
}

/// A symbol table code generation can use: every entry convertible and
/// filed under its own name, no name twice, and none named like a constant.
pub open spec fn table_ok(symbols: SymbolTable) -> bool {
    let ps = symbols.pairs();
    &&& forall|i: int| 0 <= i < ps.len() ==> convertible(#[trigger] ps[i].1)
    &&& forall|i: int| 0 <= i < ps.len() ==> (#[trigger] ps[i]).1.ident == ps[i].0
    &&& forall|i: int, j: int| 0 <= i < j < ps.len() ==> (#[trigger] ps[i]).0 != (#[trigger] ps[j]).0
    &&& forall|i: int| 0 <= i < ps.len() ==> !has_const_prefix(#[trigger] ps[i].0)
}

/// A top-level item code generation handles.
pub open spec fn top_ok(syms: SymbolTable, t: TopLevelItemV) -> bool {
    match t {
        TopLevelItemV::F(f) => func_ok(syms, f) && f.params.len() + insts_weight(f.body) <= 60000000,
        TopLevelItemV::V(v) => v.datatype.spec_is_arithmetic(),
    }
}

/// What generating the items gives before stack slots are assigned: the
/// constants interned, the static variables and the functions' names and
/// linkage, each in order.
pub struct ProgGen {
    pub consts: Seq<(Seq<char>, usize)>,
    pub vars: Seq<PoiseStaticVarV>,
    pub funcs: Seq<(Seq<char>, bool, Seq<AsmInstV>)>,
}

pub open spec fn c_items(syms: SymbolTable, items: Seq<TopLevelItemV>) -> ProgGen
    decreases items.len(),
{
    if items.len() == 0 {
        ProgGen { consts: Seq::empty(), vars: Seq::empty(), funcs: Seq::empty() }
    } else {
        let p = c_items(syms, items.drop_last());
        match items.last() {
            TopLevelItemV::F(f) => ProgGen {
                consts: c_function(p.consts, syms, f).consts,
                funcs: p.funcs.push((f.identifier, f.global, c_function(p.consts, syms, f).out)),
                ..p
            },
            TopLevelItemV::V(v) => ProgGen { vars: p.vars.push(v), ..p },
        }
    }
}

/// A static variable, aligned for its type.
pub fn gen_static_var(var: PoiseStaticVar) -> (r: AsmTopLevel)
    requires
        var.datatype@.spec_is_arithmetic(),
    ensures
        r matches AsmTopLevel::V(v) && v.identifier@ == var.identifier@ && v.global == var.global && v.alignment
            == spec_alignment(spec_convert_type(var.datatype@)) && v.init@ == var.init@,
{
    AsmTopLevel::V(
        AsmStaticVar {
            identifier: var.identifier,
            global: var.global,
            alignment: get_alignment(&convert_type(&var.datatype)),
            init: var.init,
        },
    )
}

/// A variable of the table converts to a non-constant object, whatever
/// constants are recorded after the table.
proof fn lemma_var_entry(symbols: SymbolTable, constants: Seq<AsmTopLevel>, n: Seq<char>)
    requires
        table_ok(symbols),
        val_ok(symbols, PValV::Variable(n)),
        forall|k: int| 0 <= k < constants.len() ==> (#[trigger] constants[k]) is C && constants[k]->C_0.identifier@
            == constant_name(k as nat),
    ensures
        last_value(symtable_records(symbols.pairs().map_values(|p: (Seq<char>, SymbolV)| p.1), constants), n) matches Some(
            AsmSymbol::ObjEntry(_, _, false),
        ),
{
    let ps = symbols.pairs();
    let syms = ps.map_values(|p: (Seq<char>, SymbolV)| p.1);
    let a = syms.map_values(|s: SymbolV| (s.ident, spec_convert_symbol(s)));
    let b = constants.map_values(|c: AsmTopLevel| (c->C_0.identifier@, AsmSymbol::ObjEntry(AsmType::Double, true, true)));
    lemma_lookup_some(ps, n);
    let i = choose|i: int| 0 <= i < ps.len() && ps[i].0 == n && ps[i].1 == lookup(ps, n)->0;
    assert(a[i].0 == n);
    assert forall|j: int| 0 <= j < a.len() && j != i implies (#[trigger] a[j]).0 != n by {
        if j < i {
            assert(ps[j].0 != ps[i].0);
        } else {
            assert(ps[i].0 != ps[j].0);
        }
    }
    lemma_last_value_unique(a, n, i);
    assert(!has_const_prefix(ps[i].0));
    assert forall|k: int| 0 <= k < b.len() implies (#[trigger] b[k]).0 != n by {
        let c = constant_name(k as nat);
        assert(c.subrange(0, 12) =~= seq!['.', 'L', '.', 'c', 'o', 'n', 's', 't', 'a', 'n', 't', '.']);
    }
    lemma_last_value_skip(a, b, n);
}


/// The assembly of a program: its static variables, then the constants
/// its functions interned, then its functions with stack slots assigned;
/// and the symbol table with the program's symbols and constants recorded.
pub fn gen_program(tree: PoiseProg, symbols: SymbolTable, asm_symbols: AsmSymbolTable) -> (r: (AsmProgram, AsmSymbolTable))
    requires
        table_ok(symbols),
        forall|k: int| 0 <= k < tree.top_level_items@.len() ==> top_ok(symbols, (#[trigger] tree.top_level_items@[k])@),
    ensures
        ({
            let p = c_items(symbols, tops_view(tree.top_level_items@));
            let tl = r.0.top_level@;
            let (nv, nc, nf) = (p.vars.len(), p.consts.len(), p.funcs.len());
            &&& tl.len() == nv + nc + nf
            &&& forall|k: int| 0 <= k < nv ==> ((#[trigger] tl[k]) matches AsmTopLevel::V(v) && v.identifier@ == p.vars[k].identifier
                && v.global == p.vars[k].global && v.alignment == spec_alignment(spec_convert_type(p.vars[k].datatype))
                && v.init@ == p.vars[k].init)
            &&& forall|k: int| 0 <= k < nc ==> ((#[trigger] tl[nv + k]) matches AsmTopLevel::C(c) && c.identifier@ == constant_name(
                k as nat,
            ) && c.alignment == p.consts[k].1 && c.init is DoubleInit && double_text(c.init) == p.consts[k].0)
            &&& forall|k: int| 0 <= k < nf ==> ((#[trigger] tl[nv + nc + k]) matches AsmTopLevel::F(f) && f.identifier@
                == p.funcs[k].0 && f.global == p.funcs[k].1 && f.body@.len() >= 1 && (f.body@[0] matches AsmInstruction::Binary(
                BinaryOp::Sub,
                AsmType::Quadword,
                Operand::Imm(frame),
                Operand::Reg(Register::SP, RegSize::Quad),
            ) && frame % 16 == 0) && (forall|j: int| 0 <= j < f.body@.len() ==> legal(#[trigger] f.body@[j]))
                && exists|raw: Seq<AsmInstruction>| asm_view(raw) == p.funcs[k].2 && f.body@ == framed_body(r.1, raw))
            &&& forall|n: Seq<char>| #[trigger] r.1.spec_get(n) == match last_value(
                symtable_records(symbols.pairs().map_values(|q: (Seq<char>, SymbolV)| q.1), tl.subrange(nv as int, (nv + nc) as int)),
                n,
            ) {
                Some(v) => Some(v),
                None => asm_symbols.spec_get(n),
            }
        }),
{
    let ghost tv = tops_view(tree.top_level_items@);
    let ghost orig = tree.top_level_items@;
    let mut top_level: Vec<AsmTopLevel> = Vec::new();
    let mut functions: Vec<AsmFunction> = Vec::new();
    let mut statics = Statics::new();
    let mut items = tree.top_level_items;
    let ghost mut i: int = 0;
    assert(tv.subrange(0, 0) =~= Seq::<TopLevelItemV>::empty());
    while items.len() > 0
        invariant
            0 <= i <= orig.len(),
            tv == tops_view(orig),
            tv.len() == orig.len(),
            items@ == orig.subrange(i, orig.len() as int),
            forall|k: int| 0 <= k < orig.len() ==> top_ok(symbols, (#[trigger] orig[k])@),
            statics.wf(),
            ({
                let p = c_items(symbols, tv.subrange(0, i));
                &&& consts_view(statics.statics_map@) == p.consts
                &&& top_level@.len() == p.vars.len()
                &&& forall|k: int| 0 <= k < p.vars.len() ==> ((#[trigger] top_level@[k]) matches AsmTopLevel::V(v)
                    && v.identifier@ == p.vars[k].identifier && v.global == p.vars[k].global && v.alignment
                    == spec_alignment(spec_convert_type(p.vars[k].datatype)) && v.init@ == p.vars[k].init)
                &&& functions@.len() == p.funcs.len()
                &&& forall|k: int| 0 <= k < p.funcs.len() ==> (#[trigger] functions@[k]).identifier@ == p.funcs[k].0
                    && functions@[k].global == p.funcs[k].1 && asm_view(functions@[k].body@) == p.funcs[k].2
            }),
            forall|k: int| 0 <= k < functions@.len() ==> (#[trigger] functions@[k]).body@.len() <= 60000000,
            forall|k: int, j: int| 0 <= k < functions@.len() && 0 <= j < functions@[k].body@.len() ==> ainst_ok(
                symbols,
                (#[trigger] functions@[k].body@[j])@,
            ),
        decreases items@.len(),
    {
        let ghost p = c_items(symbols, tv.subrange(0, i));
        assert(tv.subrange(0, i + 1).drop_last() =~= tv.subrange(0, i));
        assert(tv.subrange(0, i + 1).last() == orig[i]@);
        assert(top_ok(symbols, orig[i]@));
        let item = items.remove(0);
        assert(item == orig[i]);
        let ghost old_functions = functions@;
        match item {
            TopLevelItem::F(f) => {
                let ghost fv = f@;
                let funcgen = FuncGen::new(&symbols, statics, f.identifier.clone());
                let (func, st) = funcgen.gen_function(f);
                proof {
                    lemma_function_ext(p.consts, symbols, fv);
                    assert forall|j: int| 0 <= j < func.body@.len() implies ainst_ok(symbols, (#[trigger] func.body@[j])@) by {
                        assert(asm_view(func.body@)[j] == func.body@[j]@);
                    }
                }
                statics = st;
                functions.push(func);
                assert forall|k: int, j: int| 0 <= k < functions@.len() && 0 <= j < functions@[k].body@.len() implies ainst_ok(
                    symbols,
                    (#[trigger] functions@[k].body@[j])@,
                ) by {
                    if k < old_functions.len() {
                        assert(functions@[k] == old_functions[k]);
                    }
                }
            },
            TopLevelItem::V(v) => {
                top_level.push(gen_static_var(v));
            },
        }
        proof {
            i = i + 1;
        }
        assert(items@ =~= orig.subrange(i, orig.len() as int));
    }
    assert(tv.subrange(0, i) =~= tv);
    let ghost p = c_items(symbols, tv);
    let ghost nv = top_level@.len();
    let mut statics_vec: Vec<AsmTopLevel> = Vec::new();
    let mut m = statics.statics_map;
    let ghost ms = m@;
    while m.len() > 0
        invariant
            statics_vec@.len() + m@.len() == ms.len(),
            m@ == ms.subrange(statics_vec@.len() as int, ms.len() as int),
            forall|k: int| 0 <= k < statics_vec@.len() ==> (#[trigger] statics_vec@[k]) == AsmTopLevel::C(ms[k]),
        decreases m@.len(),
    {
        let c = m.remove(0);
        assert(c == ms[statics_vec@.len() as int]);
        statics_vec.push(AsmTopLevel::C(c));
        assert(m@ =~= ms.subrange(statics_vec@.len() as int, ms.len() as int));
    }
    let ghost cv = statics_vec@;
    let mut asm_symbols = asm_symbols;
    let ghost asm0 = asm_symbols;
    proof {
        assert forall|k: int| 0 <= k < cv.len() implies (#[trigger] cv[k]) is C && cv[k]->C_0.identifier@ == constant_name(
            k as nat,
        ) by {
            assert(cv[k] == AsmTopLevel::C(ms[k]));
        }
    }
    convert_symtable(&symbols, &mut asm_symbols, &statics_vec);
    proof {
        assert forall|k: int, j: int| 0 <= k < functions@.len() && 0 <= j < functions@[k].body@.len() implies inst_pseudos_ok(
            asm_symbols,
            #[trigger] functions@[k].body@[j],
        ) by {
            let inst = functions@[k].body@[j];
            assert(ainst_ok(symbols, inst@));
            assert forall|n: Seq<char>| val_ok(symbols, PValV::Variable(n)) implies #[trigger] asm_symbols.spec_get(n) matches Some(
                AsmSymbol::ObjEntry(_, _, false),
            ) by {
                lemma_var_entry(symbols, cv, n);
            }
        }
    }
    let ghost fb = functions@;
    let functions = assign_stack_slots(functions, &asm_symbols);
    let ghost nc = statics_vec@.len();
    let mut rest = statics_vec;
    top_level.append(&mut rest);
    let ghost nvc = top_level@.len();
    let ghost tl0 = top_level@;
    let ghost fs = functions@;
    let mut fns = functions;
    while fns.len() > 0
        invariant
            top_level@.len() + fns@.len() == nvc + fs.len(),
            nvc <= top_level@.len(),
            fns@ == fs.subrange(top_level@.len() - nvc, fs.len() as int),
            forall|k: int| 0 <= k < nvc ==> top_level@[k] == tl0[k],
            nvc == tl0.len(),
            forall|k: int| nvc <= k < top_level@.len() ==> (#[trigger] top_level@[k]) == AsmTopLevel::F(fs[k - nvc]),
        decreases fns@.len(),
    {
        let f = fns.remove(0);
        top_level.push(AsmTopLevel::F(f));
        assert(fns@ =~= fs.subrange(top_level@.len() - nvc, fs.len() as int));
    }
    proof {
        let tl = top_level@;
        assert(ms.len() == p.consts.len());
        assert(tl0.subrange(nv as int, nvc as int) =~= cv);
        assert forall|k: int| 0 <= k < nv implies #[trigger] tl[k] == tl0[k] by {}
        assert forall|k: int| 0 <= k < nc implies #[trigger] tl[nv + k] == AsmTopLevel::C(ms[k]) by {
            assert(tl[nv + k] == tl0[nv + k]);
            assert(tl0[nv + k] == cv[k]);
        }
        assert forall|k: int| 0 <= k < nc implies consts_view(ms)[k] == (double_text(ms[k].init), ms[k].alignment) by {}
        assert forall|k: int| 0 <= k < fs.len() implies #[trigger] tl[nvc + k] == AsmTopLevel::F(fs[k]) by {
            assert(tl[nvc + k] == AsmTopLevel::F(fs[nvc + k - nvc]));
        }
        assert forall|k: int| 0 <= k < fs.len() implies asm_view(fb[k].body@) == p.funcs[k].2
            && #[trigger] fs[k].body@ == framed_body(asm_symbols, fb[k].body@) by {}
        assert(tl.subrange(nv as int, (nv + nc) as int) =~= cv);
    }
    (AsmProgram { top_level }, asm_symbols)
}

} // verus!

verus! {

/// Law: the condition chosen for a comparison decides it. For operands of a
/// signed type (`-half <= a, b < half`) or of an unsigned type
/// (`0 <= a, b < 2 * half`), the condition holds of their bit patterns after
/// `cmp` exactly when the comparison gives 1 on their values; so distinct
/// comparisons get distinct conditions (`<` is `L` or `B`, never `LE`).
pub proof fn lemma_conditional_decides(op: PoiseBinaryOp, signed: bool, a: i128, b: i128, half: int)
    requires
        is_relational(op),
        half > 0,
        signed ==> -half <= a < half && -half <= b < half,
        !signed ==> 0 <= a < 2 * half && 0 <= b < 2 * half,
    ensures
        cond_holds(spec_gen_conditional(op, signed), bit_pattern(a as int, half), bit_pattern(b as int, half), half)
            == Some(poise_binary_value(op, a, b) == Some(1int)),
{
}

/// Law: the register read after a division holds the wanted result: for
/// every dividend and nonzero divisor, what `div`/`idiv` leave there is the
/// value of the instruction (the quotient of `/`, the remainder of `%`).
pub proof fn lemma_division_register(op: PoiseBinaryOp, a: i128, b: i128)
    requires
        op is Divide || op is Remainder,
        b != 0,
    ensures
        division_leaves(spec_gen_division(op), a as int, b as int) == poise_binary_value(op, a, b),
{
}

/// Law: the instruction chosen for an arithmetic, bitwise or shift
/// instruction computes its value. For operands of a signed type
/// (`-half <= a, b < half`) or of an unsigned type (`0 <= a, b < 2 * half`),
/// and a shift count that is not negative, the x86 operation gives the
/// value of the intermediate operation (before both are fitted to the type);
/// in particular a right shift is arithmetic for signed and logical for
/// unsigned operands.
pub proof fn lemma_binary_inst_same_value(op: PoiseBinaryOp, signed: bool, a: i128, b: i128, half: int)
    requires
        is_arith_op(op) || op is LeftShift || op is RightShift,
        half > 0,
        signed ==> -half <= a < half && -half <= b < half,
        !signed ==> 0 <= a < 2 * half && 0 <= b < 2 * half,
        (op is LeftShift || op is RightShift) ==> b >= 0,
    ensures
        asm_binary_value(spec_gen_binary(op, signed), a, b, half) == poise_binary_value(op, a, b),
{
}

/// Law: the instruction chosen for an integer negation or complement
/// computes its value: the last instruction emitted is the x86 unary
/// operation that gives, for every operand value, the intermediate
/// operation's value.
pub proof fn lemma_unary_inst_same_value(st: CG, syms: SymbolTable, op: PoiseUnaryOp, src: PValV, dst: PValV, a: int)
    requires
        op is Negate || op is Complement,
        val_type(syms, src) != AsmType::Double,
    ensures
        c_unary(st, syms, op, src, dst).out.last() matches AsmInstV::Unary(u, _, _) && asm_unary_value(u, a)
            == poise_unary_value(op, a),
{
    reveal(c_unary);
}

} // verus!
