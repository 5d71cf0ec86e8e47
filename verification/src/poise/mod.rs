use vstd::prelude::*;

use crate::parser::ast::{Const, ConstV};
use crate::types::{StaticInit, StaticInitV, Type, TypeV};
use crate::semanal::switch_collector::{tdiv, trem};

pub mod gen;
pub mod ready;

verus! {

broadcast use vstd::std_specs::vec::group_vec_axioms, vstd::seq::group_seq_axioms;

/// A program in the three-address intermediate form.
#[derive(Debug)]
pub struct PoiseProg {
    pub top_level_items: Vec<TopLevelItem>,
}

#[derive(Debug)]
pub enum TopLevelItem {
    F(PoiseFunc),
    V(PoiseStaticVar),
}

#[derive(Debug)]
pub struct PoiseFunc {
    pub identifier: String,
    pub global: bool,
    pub params: Vec<String>,
    pub body: Vec<PoiseInstruction>,
}

#[derive(Debug)]
pub struct PoiseStaticVar {
    pub identifier: String,
    pub global: bool,
    pub datatype: Type,
    pub init: StaticInit,
}

#[derive(Debug)]
pub enum PoiseInstruction {
    Return(PoiseVal),
    SignExtend { src: PoiseVal, dst: PoiseVal },
    Truncate { src: PoiseVal, dst: PoiseVal },
    ZeroExtend { src: PoiseVal, dst: PoiseVal },
    DoubleToInt { src: PoiseVal, dst: PoiseVal },
    DoubleToUInt { src: PoiseVal, dst: PoiseVal },
    IntToDouble { src: PoiseVal, dst: PoiseVal },
    UIntToDouble { src: PoiseVal, dst: PoiseVal },
    Unary { op: PoiseUnaryOp, src: PoiseVal, dst: PoiseVal },
    Binary { op: PoiseBinaryOp, src1: PoiseVal, src2: PoiseVal, dst: PoiseVal },
    Copy { src: PoiseVal, dst: PoiseVal },
    Jump(String),
    JumpIfZero { condition: PoiseVal, identifier: String },
    JumpIfNotZero { condition: PoiseVal, identifier: String },
    Label(String),
    FunctionCall { ident: String, args: Vec<PoiseVal>, dst: PoiseVal },
}

/// An operand: a constant or a variable.
#[derive(Debug)]
pub enum PoiseVal {
    Constant(Const),
    Variable(String),
}

#[derive(Debug, Clone, Copy, PartialEq, Eq, Structural)]
pub enum PoiseUnaryOp {
    Complement,
    Negate,
    Not,
}

#[derive(Debug, Clone, Copy, PartialEq, Eq, Structural)]
pub enum PoiseBinaryOp {
    Add,
    Subtract,
    Multiply,
    Divide,
    Remainder,
    LeftShift,
    RightShift,
    BitwiseAnd,
    BitwiseOr,
    BitwiseXor,
    Equal,
    NotEqual,
    LessThan,
    GreaterThan,
    LessOrEqual,
    GreaterOrEqual,
}

pub enum PValV {
    Constant(ConstV),
    Variable(Seq<char>),
}

impl View for PoiseVal {
    type V = PValV;

    open spec fn view(&self) -> PValV {
        match self {
            PoiseVal::Constant(c) => PValV::Constant(c@),
            PoiseVal::Variable(n) => PValV::Variable(n@),
        }
    }
}

impl PoiseVal {
    /// A copy with the same model.
    pub fn duplicate(&self) -> (r: PoiseVal)
        ensures
            r@ == self@,
    {
        match self {
            PoiseVal::Constant(c) => PoiseVal::Constant(c.duplicate()),
            PoiseVal::Variable(n) => PoiseVal::Variable(n.clone()),
        }
    }
}

pub enum PInstV {
    Return(PValV),
    SignExtend { src: PValV, dst: PValV },
    Truncate { src: PValV, dst: PValV },
    ZeroExtend { src: PValV, dst: PValV },
    DoubleToInt { src: PValV, dst: PValV },
    DoubleToUInt { src: PValV, dst: PValV },
    IntToDouble { src: PValV, dst: PValV },
    UIntToDouble { src: PValV, dst: PValV },
    Unary { op: PoiseUnaryOp, src: PValV, dst: PValV },
    Binary { op: PoiseBinaryOp, src1: PValV, src2: PValV, dst: PValV },
    Copy { src: PValV, dst: PValV },
    Jump(Seq<char>),
    JumpIfZero { condition: PValV, identifier: Seq<char> },
    JumpIfNotZero { condition: PValV, identifier: Seq<char> },
    Label(Seq<char>),
    FunctionCall { ident: Seq<char>, args: Seq<PValV>, dst: PValV },
}

pub open spec fn vals_view(vs: Seq<PoiseVal>) -> Seq<PValV> {
    vs.map_values(|v: PoiseVal| v@)
}

impl View for PoiseInstruction {
    type V = PInstV;

    open spec fn view(&self) -> PInstV {
        match self {
            PoiseInstruction::Return(v) => PInstV::Return(v@),
            PoiseInstruction::SignExtend { src, dst } => PInstV::SignExtend { src: src@, dst: dst@ },
            PoiseInstruction::Truncate { src, dst } => PInstV::Truncate { src: src@, dst: dst@ },
            PoiseInstruction::ZeroExtend { src, dst } => PInstV::ZeroExtend { src: src@, dst: dst@ },
            PoiseInstruction::DoubleToInt { src, dst } => PInstV::DoubleToInt { src: src@, dst: dst@ },
            PoiseInstruction::DoubleToUInt { src, dst } => PInstV::DoubleToUInt { src: src@, dst: dst@ },
            PoiseInstruction::IntToDouble { src, dst } => PInstV::IntToDouble { src: src@, dst: dst@ },
            PoiseInstruction::UIntToDouble { src, dst } => PInstV::UIntToDouble { src: src@, dst: dst@ },
            PoiseInstruction::Unary { op, src, dst } => PInstV::Unary { op: *op, src: src@, dst: dst@ },
            PoiseInstruction::Binary { op, src1, src2, dst } => PInstV::Binary {
                op: *op,
                src1: src1@,
                src2: src2@,
                dst: dst@,
            },
            PoiseInstruction::Copy { src, dst } => PInstV::Copy { src: src@, dst: dst@ },
            PoiseInstruction::Jump(l) => PInstV::Jump(l@),
            PoiseInstruction::JumpIfZero { condition, identifier } => PInstV::JumpIfZero {
                condition: condition@,
                identifier: identifier@,
            },
            PoiseInstruction::JumpIfNotZero { condition, identifier } => PInstV::JumpIfNotZero {
                condition: condition@,
                identifier: identifier@,
            },
            PoiseInstruction::Label(l) => PInstV::Label(l@),
            PoiseInstruction::FunctionCall { ident, args, dst } => PInstV::FunctionCall {
                ident: ident@,
                args: vals_view(args@),
                dst: dst@,
            },
        }
    }
}

pub open spec fn insts_view(is: Seq<PoiseInstruction>) -> Seq<PInstV> {
    is.map_values(|i: PoiseInstruction| i@)
}


pub struct PoiseFuncV {
    pub identifier: Seq<char>,
    pub global: bool,
    pub params: Seq<Seq<char>>,
    pub body: Seq<PInstV>,
}

pub struct PoiseStaticVarV {
    pub identifier: Seq<char>,
    pub global: bool,
    pub datatype: TypeV,
    pub init: StaticInitV,
}

pub enum TopLevelItemV {
    F(PoiseFuncV),
    V(PoiseStaticVarV),
}

impl View for PoiseFunc {
    type V = PoiseFuncV;

    open spec fn view(&self) -> PoiseFuncV {
        PoiseFuncV {
            identifier: self.identifier@,
            global: self.global,
            params: self.params@.map_values(|p: String| p@),
            body: insts_view(self.body@),
        }
    }
}

impl View for PoiseStaticVar {
    type V = PoiseStaticVarV;

    open spec fn view(&self) -> PoiseStaticVarV {
        PoiseStaticVarV { identifier: self.identifier@, global: self.global, datatype: self.datatype@, init: self.init@ }
    }
}

impl View for TopLevelItem {
    type V = TopLevelItemV;

    open spec fn view(&self) -> TopLevelItemV {
        match self {
            TopLevelItem::F(f) => TopLevelItemV::F(f@),
            TopLevelItem::V(v) => TopLevelItemV::V(v@),
        }
    }
}

pub open spec fn tops_view(ts: Seq<TopLevelItem>) -> Seq<TopLevelItemV> {
    ts.map_values(|t: TopLevelItem| t@)
}

} // verus!

verus! {

/// What a binary instruction computes from the values of its integer
/// sources, before the result is fitted to the destination's type: exact
/// sums, differences and products; quotient and remainder of division
/// rounding toward zero, with no value for a zero divisor; shifts that
/// multiply or divide (rounding down) by a power of two, with no value for a
/// negative count; bitwise operations on the two's complement bits;
/// comparisons giving 1 or 0.
pub open spec fn poise_binary_value(op: PoiseBinaryOp, a: i128, b: i128) -> Option<int> {
    match op {
        PoiseBinaryOp::Add => Some(a + b),
        PoiseBinaryOp::Subtract => Some(a - b),
        PoiseBinaryOp::Multiply => Some(a * b),
        PoiseBinaryOp::Divide => if b == 0 { None } else { Some(tdiv(a as int, b as int)) },
        PoiseBinaryOp::Remainder => if b == 0 { None } else { Some(trem(a as int, b as int)) },
        PoiseBinaryOp::LeftShift => if b < 0 { None } else { Some(a * vstd::arithmetic::power2::pow2(b as nat)) },
        PoiseBinaryOp::RightShift => if b < 0 { None } else { Some((a as int) / (vstd::arithmetic::power2::pow2(b as nat) as int)) },
        PoiseBinaryOp::BitwiseAnd => Some((a & b) as int),
        PoiseBinaryOp::BitwiseOr => Some((a | b) as int),
        PoiseBinaryOp::BitwiseXor => Some((a ^ b) as int),
        PoiseBinaryOp::Equal => Some(if a == b { 1int } else { 0int }),
        PoiseBinaryOp::NotEqual => Some(if a != b { 1int } else { 0int }),
        PoiseBinaryOp::LessThan => Some(if a < b { 1int } else { 0int }),
        PoiseBinaryOp::GreaterThan => Some(if a > b { 1int } else { 0int }),
        PoiseBinaryOp::LessOrEqual => Some(if a <= b { 1int } else { 0int }),
        PoiseBinaryOp::GreaterOrEqual => Some(if a >= b { 1int } else { 0int }),
    }
}

/// What a unary instruction computes from the value of its integer source:
/// the negation, the bitwise complement (`-a - 1`), and 1 or 0 for `Not`.
pub open spec fn poise_unary_value(op: PoiseUnaryOp, a: int) -> int {
    match op {
        PoiseUnaryOp::Negate => -a,
        PoiseUnaryOp::Complement => -a - 1,
        PoiseUnaryOp::Not => if a == 0 { 1 } else { 0 },
    }
}

} // verus!
