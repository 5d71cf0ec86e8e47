use vstd::prelude::*;

use crate::text::{dec_str, push_decimal, string_from_chars};
use crate::types::StaticInit;

verus! {

broadcast use vstd::std_specs::vec::group_vec_axioms, vstd::seq::group_seq_axioms;

/// A whole assembly program.
#[derive(Debug)]
pub struct AsmProgram {
    pub top_level: Vec<AsmTopLevel>,
}

/// Operand sizes and the floating-point type.
#[derive(Debug, Clone, Copy, PartialEq, Eq, Structural)]
pub enum AsmType {
    Byte,
    Longword,
    Quadword,
    Double,
}

#[derive(Debug)]
pub enum AsmTopLevel {
    F(AsmFunction),
    V(AsmStaticVar),
    C(StaticConstant),
}

/// A read-only constant, such as the value of a `double` literal.
#[derive(Debug)]
pub struct StaticConstant {
    pub identifier: String,
    pub alignment: usize,
    pub init: StaticInit,
}

#[derive(Debug)]
pub struct AsmFunction {
    pub identifier: String,
    pub global: bool,
    pub body: Vec<AsmInstruction>,
}

#[derive(Debug)]
pub struct AsmStaticVar {
    pub identifier: String,
    pub global: bool,
    pub alignment: usize,
    pub init: StaticInit,
}

#[derive(Debug, PartialEq, Eq)]
pub enum AsmInstruction {
    Mov(AsmType, Operand, Operand),
    Movsx(Operand, Operand),
    MovZeroExtend(Operand, Operand),
    Unary(UnaryOp, AsmType, Operand),
    Binary(BinaryOp, AsmType, Operand, Operand),
    Cmp(AsmType, Operand, Operand),
    Idiv(AsmType, Operand),
    Div(AsmType, Operand),
    Cdq(AsmType),
    Jmp(String),
    JmpCC(Condition, String),
    SetCC(Condition, Operand),
    Label(String),
    Push(Operand),
    Call(String),
    Ret,
    Cvttsd2si(AsmType, Operand, Operand),
    Cvtsi2sd(AsmType, Operand, Operand),
}

#[derive(Debug, Clone, Copy, PartialEq, Eq, Structural)]
pub enum UnaryOp {
    Neg,
    Not,
}

#[derive(Debug, Clone, Copy, PartialEq, Eq, Structural)]
pub enum BinaryOp {
    Add,
    Sub,
    Mult,
    DivDouble,
    Sal,
    Sar,
    Shr,
    Shl,
    BitAnd,
    BitOr,
    BitXor,
}

#[derive(Debug, PartialEq, Eq)]
pub enum Operand {
    Imm(i64),
    Reg(Register, RegSize),
    Pseudo(String),
    Stack(i32),
    Data(String),
}

#[derive(Debug, Clone, Copy, PartialEq, Eq, Structural)]
pub enum Register {
    AX,
    CX,
    DX,
    DI,
    SI,
    R8,
    R9,
    R10,
    R11,
    SP,
    XMM0,
    XMM1,
    XMM2,
    XMM3,
    XMM4,
    XMM5,
    XMM6,
    XMM7,
    XMM8,
    XMM9,
    XMM10,
    XMM11,
    XMM12,
    XMM13,
    XMM14,
    XMM15,
}

#[derive(Debug, Clone, Copy, PartialEq, Eq, Structural)]
pub enum RegSize {
    Byte,
    Long,
    Quad,
}

#[derive(Debug, Clone, Copy, PartialEq, Eq, Structural)]
pub enum Condition {
    E,
    NE,
    L,
    LE,
    G,
    GE,
    A,
    AE,
    B,
    BE,
    P,
    NP,
}

/// The registers that carry the first integer arguments of a call, in order.
pub open spec fn int_arg_reg(n: int) -> Register {
    if n == 0 {
        Register::DI
    } else if n == 1 {
        Register::SI
    } else if n == 2 {
        Register::DX
    } else if n == 3 {
        Register::CX
    } else if n == 4 {
        Register::R8
    } else {
        Register::R9
    }
}

/// The registers that carry the first floating-point arguments of a call, in order.
pub open spec fn float_arg_reg(n: int) -> Register {
    if n == 0 {
        Register::XMM0
    } else if n == 1 {
        Register::XMM1
    } else if n == 2 {
        Register::XMM2
    } else if n == 3 {
        Register::XMM3
    } else if n == 4 {
        Register::XMM4
    } else if n == 5 {
        Register::XMM5
    } else if n == 6 {
        Register::XMM6
    } else {
        Register::XMM7
    }
}

/// The register of argument `argn` of its class: six for integers, eight for doubles.
pub fn get_func_reg(argn: usize, is_float: bool) -> (r: Register)
    requires
        if is_float { argn < 8 } else { argn < 6 },
    ensures
        r == if is_float { float_arg_reg(argn as int) } else { int_arg_reg(argn as int) },
{
    if !is_float {
        match argn {
            0 => Register::DI,
            1 => Register::SI,
            2 => Register::DX,
            3 => Register::CX,
            4 => Register::R8,
            _ => Register::R9,
        }
    } else {
        match argn {
            0 => Register::XMM0,
            1 => Register::XMM1,
            2 => Register::XMM2,
            3 => Register::XMM3,
            4 => Register::XMM4,
            5 => Register::XMM5,
            6 => Register::XMM6,
            _ => Register::XMM7,
        }
    }
}

/// Hands out argument positions: the first six integer and eight
/// floating-point arguments go in registers, the rest on the stack.
pub struct FuncNum {
    pub int_param: usize,
    pub float_param: usize,
    pub stack: usize,
}

impl FuncNum {
    pub fn new() -> (r: Self)
        ensures
            r.int_param == 0 && r.float_param == 0 && r.stack == 0,
    {
        FuncNum { int_param: 0, float_param: 0, stack: 0 }
    }

    /// The place of the next integer argument: `(true, register number)` or
    /// `(false, stack slot)`.
    pub fn get_int(&mut self) -> (r: (bool, usize))
        requires
            old(self).int_param <= 6,
            old(self).stack < usize::MAX,
        ensures
            final(self).float_param == old(self).float_param,
            final(self).int_param <= 6,
            old(self).int_param <= 5 ==> r == (true, old(self).int_param) && final(self).int_param
                == old(self).int_param + 1 && final(self).stack == old(self).stack,
            old(self).int_param > 5 ==> r == (false, old(self).stack) && final(self).stack == old(self).stack
                + 1 && final(self).int_param == old(self).int_param,
    {
        if self.int_param <= 5 {
            let num = self.int_param;
            self.int_param = self.int_param + 1;
            (true, num)
        } else {
            let num = self.stack;
            self.stack = self.stack + 1;
            (false, num)
        }
    }

    /// The place of the next floating-point argument.
    pub fn get_float(&mut self) -> (r: (bool, usize))
        requires
            old(self).float_param <= 8,
            old(self).stack < usize::MAX,
        ensures
            final(self).int_param == old(self).int_param,
            final(self).float_param <= 8,
            old(self).float_param <= 7 ==> r == (true, old(self).float_param) && final(self).float_param
                == old(self).float_param + 1 && final(self).stack == old(self).stack,
            old(self).float_param > 7 ==> r == (false, old(self).stack) && final(self).stack
                == old(self).stack + 1 && final(self).float_param == old(self).float_param,
    {
        if self.float_param <= 7 {
            let num = self.float_param;
            self.float_param = self.float_param + 1;
            (true, num)
        } else {
            let num = self.stack;
            self.stack = self.stack + 1;
            (false, num)
        }
    }
}

pub open spec fn spec_regsize(t: AsmType) -> RegSize {
    match t {
        AsmType::Byte => RegSize::Byte,
        AsmType::Longword => RegSize::Long,
        AsmType::Quadword => RegSize::Quad,
        AsmType::Double => RegSize::Quad,
    }
}

pub fn get_regsize(asmtype: &AsmType) -> (r: RegSize)
    ensures
        r == spec_regsize(*asmtype),
{
    match asmtype {
        AsmType::Byte => RegSize::Byte,
        AsmType::Longword => RegSize::Long,
        AsmType::Quadword => RegSize::Quad,
        AsmType::Double => RegSize::Quad,
    }
}

/// Alignment in bytes.
pub open spec fn spec_alignment(t: AsmType) -> int {
    match t {
        AsmType::Byte => 1,
        AsmType::Longword => 4,
        AsmType::Quadword => 8,
        AsmType::Double => 8,
    }
}

pub fn get_alignment(asmtype: &AsmType) -> (r: usize)
    ensures
        r == spec_alignment(*asmtype),
{
    match asmtype {
        AsmType::Byte => 1,
        AsmType::Longword => 4,
        AsmType::Quadword => 8,
        AsmType::Double => 8,
    }
}

/// The name of the `n`-th interned constant.
pub open spec fn constant_name(n: nat) -> Seq<char> {
    seq!['.', 'L', '.', 'c', 'o', 'n', 's', 't', 'a', 'n', 't', '.'] + dec_str(n)
}

/// The read-only `double` constants of a program, each interned once per
/// value and alignment.
#[derive(Debug)]
pub struct Statics {
    pub statics_map: Vec<StaticConstant>,
}

/// The decimal text of a `double` initial value.
pub open spec fn double_text(i: StaticInit) -> Seq<char> {
    match i {
        StaticInit::DoubleInit(d) => d@,
        _ => Seq::empty(),
    }
}

/// The constants as pairs of a value's text and an alignment, in order.
pub open spec fn consts_view(m: Seq<StaticConstant>) -> Seq<(Seq<char>, usize)> {
    m.map_values(|c: StaticConstant| (double_text(c.init), c.alignment))
}

/// The constants after interning `init` at `alignment`, and the name of
/// the one that holds it: the one made before if any, else a new one.
pub open spec fn intern(cs: Seq<(Seq<char>, usize)>, init: Seq<char>, alignment: usize) -> (Seq<(Seq<char>, usize)>, Seq<char>) {
    if exists|i: int| 0 <= i < cs.len() && cs[i] == (init, alignment) {
        (cs, constant_name((choose|i: int| 0 <= i < cs.len() && cs[i] == (init, alignment)) as nat))
    } else {
        (cs.push((init, alignment)), constant_name(cs.len()))
    }
}

impl Statics {
    /// The `i`-th constant is named by its position, holds a `double`, and
    /// no two hold the same value at the same alignment.
    pub open spec fn wf(self) -> bool {
        let cs = consts_view(self.statics_map@);
        &&& forall|i: int| 0 <= i < self.statics_map@.len() ==> (#[trigger] self.statics_map@[i]).identifier@ == constant_name(i as nat)
            && self.statics_map@[i].init is DoubleInit
        &&& forall|i: int, j: int| 0 <= i < cs.len() && 0 <= j < cs.len() && i != j ==> cs[i] != cs[j]
    }

    pub fn new() -> (r: Statics)
        ensures
            r.statics_map@.len() == 0,
            r.wf(),
    {
        Statics { statics_map: Vec::new() }
    }

    /// The name of the constant holding `init` at `alignment`, made on first use.
    pub fn intern_static(&mut self, init: String, alignment: usize) -> (r: String)
        requires
            old(self).wf(),
        ensures
            final(self).wf(),
            (consts_view(final(self).statics_map@), r@) == intern(consts_view(old(self).statics_map@), init@, alignment),
    {
        let ghost cs = consts_view(self.statics_map@);
        let next_id = self.statics_map.len();
        let mut i: usize = 0;
        while i < self.statics_map.len()
            invariant
                i <= self.statics_map@.len(),
                self.statics_map@ == old(self).statics_map@,
                old(self).wf(),
                cs == consts_view(self.statics_map@),
                cs.len() == self.statics_map@.len(),
                forall|j: int| 0 <= j < i ==> cs[j] != (init@, alignment),
            decreases self.statics_map@.len() - i,
        {
            let c = &self.statics_map[i];
            let same = match &c.init {
                StaticInit::DoubleInit(d) => *d == init && c.alignment == alignment,
                _ => false,
            };
            assert(cs[i as int] == (double_text(c.init), c.alignment));
            if same {
                proof {
                    let k = choose|k: int| 0 <= k < cs.len() && cs[k] == (init@, alignment);
                    assert(cs[k] == cs[i as int]);
                    assert(k == i);
                    assert(self.statics_map@[i as int].identifier@ == constant_name(i as nat));
                }
                return c.identifier.clone();
            }
            i = i + 1;
        }
        let mut name: Vec<char> = Vec::new();
        name.push('.');
        name.push('L');
        name.push('.');
        name.push('c');
        name.push('o');
        name.push('n');
        name.push('s');
        name.push('t');
        name.push('a');
        name.push('n');
        name.push('t');
        name.push('.');
        push_decimal(next_id as u64, &mut name);
        assert(name@ =~= constant_name(next_id as nat));
        let identifier = string_from_chars(&name);
        let ident_copy = identifier.clone();
        self.statics_map.push(StaticConstant { identifier, alignment, init: StaticInit::DoubleInit(init) });
        assert(consts_view(self.statics_map@) =~= cs.push((init@, alignment)));
        ident_copy
    }
}

impl AsmType {
    pub fn is_double(&self) -> (r: bool)
        ensures
            r == (*self == AsmType::Double),
    {
        matches!(self, AsmType::Double)
    }
}

impl Operand {
    pub open spec fn spec_is_memory(self) -> bool {
        self is Stack || self is Data
    }

    /// An immediate that fits in 32 bits unsigned but not signed.
    pub open spec fn spec_is_large_32bit_imm(self) -> bool {
        self matches Operand::Imm(v) && i32::MAX < v <= u32::MAX
    }

    /// An immediate that does not fit in 32 bits unsigned.
    pub open spec fn spec_is_large_64bit_imm(self) -> bool {
        self matches Operand::Imm(v) && (v < 0 || v > u32::MAX)
    }

    pub fn is_memory(&self) -> (r: bool)
        ensures
            r == self.spec_is_memory(),
    {
        matches!(self, Operand::Stack(_) | Operand::Data(_))
    }

    pub fn is_reg(&self) -> (r: bool)
        ensures
            r == (*self is Reg),
    {
        matches!(self, Operand::Reg(..))
    }

    pub fn is_imm(&self) -> (r: bool)
        ensures
            r == (*self is Imm),
    {
        matches!(self, Operand::Imm(_))
    }

    pub fn is_large_32bit_imm(&self) -> (r: bool)
        ensures
            r == self.spec_is_large_32bit_imm(),
    {
        if let Operand::Imm(v) = self {
            *v > 2147483647i64 && *v <= 4294967295i64
        } else {
            false
        }
    }

    pub fn is_large_64bit_imm(&self) -> (r: bool)
        ensures
            r == self.spec_is_large_64bit_imm(),
    {
        if let Operand::Imm(v) = self {
            *v < 0 || *v > 4294967295i64
        } else {
            false
        }
    }

    /// A copy of the operand.
    pub fn duplicate(&self) -> (r: Operand)
        ensures
            r == *self,
    {
        match self {
            Operand::Imm(v) => Operand::Imm(*v),
            Operand::Reg(r, s) => Operand::Reg(*r, *s),
            Operand::Pseudo(n) => Operand::Pseudo(n.clone()),
            Operand::Stack(k) => Operand::Stack(*k),
            Operand::Data(n) => Operand::Data(n.clone()),
        }
    }
}

impl AsmInstruction {
    /// A copy of the instruction.
    pub fn duplicate(&self) -> (r: AsmInstruction)
        ensures
            r == *self,
    {
        match self {
            AsmInstruction::Mov(t, a, b) => AsmInstruction::Mov(*t, a.duplicate(), b.duplicate()),
            AsmInstruction::Movsx(a, b) => AsmInstruction::Movsx(a.duplicate(), b.duplicate()),
            AsmInstruction::MovZeroExtend(a, b) => AsmInstruction::MovZeroExtend(a.duplicate(), b.duplicate()),
            AsmInstruction::Unary(op, t, a) => AsmInstruction::Unary(*op, *t, a.duplicate()),
            AsmInstruction::Binary(op, t, a, b) => AsmInstruction::Binary(*op, *t, a.duplicate(), b.duplicate()),
            AsmInstruction::Cmp(t, a, b) => AsmInstruction::Cmp(*t, a.duplicate(), b.duplicate()),
            AsmInstruction::Idiv(t, a) => AsmInstruction::Idiv(*t, a.duplicate()),
            AsmInstruction::Div(t, a) => AsmInstruction::Div(*t, a.duplicate()),
            AsmInstruction::Cdq(t) => AsmInstruction::Cdq(*t),
            AsmInstruction::Jmp(l) => AsmInstruction::Jmp(l.clone()),
            AsmInstruction::JmpCC(c, l) => AsmInstruction::JmpCC(*c, l.clone()),
            AsmInstruction::SetCC(c, a) => AsmInstruction::SetCC(*c, a.duplicate()),
            AsmInstruction::Label(l) => AsmInstruction::Label(l.clone()),
            AsmInstruction::Push(a) => AsmInstruction::Push(a.duplicate()),
            AsmInstruction::Call(f) => AsmInstruction::Call(f.clone()),
            AsmInstruction::Ret => AsmInstruction::Ret,
            AsmInstruction::Cvttsd2si(t, a, b) => AsmInstruction::Cvttsd2si(*t, a.duplicate(), b.duplicate()),
            AsmInstruction::Cvtsi2sd(t, a, b) => AsmInstruction::Cvtsi2sd(*t, a.duplicate(), b.duplicate()),
        }
    }
}


/// Model of an [`Operand`], names as character sequences.
pub enum OperandV {
    Imm(i64),
    Reg(Register, RegSize),
    Pseudo(Seq<char>),
    Stack(i32),
    Data(Seq<char>),
}

impl View for Operand {
    type V = OperandV;

    open spec fn view(&self) -> OperandV {
        match self {
            Operand::Imm(v) => OperandV::Imm(*v),
            Operand::Reg(r, s) => OperandV::Reg(*r, *s),
            Operand::Pseudo(n) => OperandV::Pseudo(n@),
            Operand::Stack(k) => OperandV::Stack(*k),
            Operand::Data(n) => OperandV::Data(n@),
        }
    }
}

/// Model of an [`AsmInstruction`].
pub enum AsmInstV {
    Mov(AsmType, OperandV, OperandV),
    Movsx(OperandV, OperandV),
    MovZeroExtend(OperandV, OperandV),
    Unary(UnaryOp, AsmType, OperandV),
    Binary(BinaryOp, AsmType, OperandV, OperandV),
    Cmp(AsmType, OperandV, OperandV),
    Idiv(AsmType, OperandV),
    Div(AsmType, OperandV),
    Cdq(AsmType),
    Jmp(Seq<char>),
    JmpCC(Condition, Seq<char>),
    SetCC(Condition, OperandV),
    Label(Seq<char>),
    Push(OperandV),
    Call(Seq<char>),
    Ret,
    Cvttsd2si(AsmType, OperandV, OperandV),
    Cvtsi2sd(AsmType, OperandV, OperandV),
}

impl View for AsmInstruction {
    type V = AsmInstV;

    open spec fn view(&self) -> AsmInstV {
        match self {
            AsmInstruction::Mov(t, a, b) => AsmInstV::Mov(*t, a@, b@),
            AsmInstruction::Movsx(a, b) => AsmInstV::Movsx(a@, b@),
            AsmInstruction::MovZeroExtend(a, b) => AsmInstV::MovZeroExtend(a@, b@),
            AsmInstruction::Unary(op, t, a) => AsmInstV::Unary(*op, *t, a@),
            AsmInstruction::Binary(op, t, a, b) => AsmInstV::Binary(*op, *t, a@, b@),
            AsmInstruction::Cmp(t, a, b) => AsmInstV::Cmp(*t, a@, b@),
            AsmInstruction::Idiv(t, a) => AsmInstV::Idiv(*t, a@),
            AsmInstruction::Div(t, a) => AsmInstV::Div(*t, a@),
            AsmInstruction::Cdq(t) => AsmInstV::Cdq(*t),
            AsmInstruction::Jmp(l) => AsmInstV::Jmp(l@),
            AsmInstruction::JmpCC(c, l) => AsmInstV::JmpCC(*c, l@),
            AsmInstruction::SetCC(c, a) => AsmInstV::SetCC(*c, a@),
            AsmInstruction::Label(l) => AsmInstV::Label(l@),
            AsmInstruction::Push(a) => AsmInstV::Push(a@),
            AsmInstruction::Call(f) => AsmInstV::Call(f@),
            AsmInstruction::Ret => AsmInstV::Ret,
            AsmInstruction::Cvttsd2si(t, a, b) => AsmInstV::Cvttsd2si(*t, a@, b@),
            AsmInstruction::Cvtsi2sd(t, a, b) => AsmInstV::Cvtsi2sd(*t, a@, b@),
        }
    }
}

pub open spec fn asm_view(is: Seq<AsmInstruction>) -> Seq<AsmInstV> {
    is.map_values(|i: AsmInstruction| i@)
}


/// Interning a value twice gives one constant: the second time nothing is
/// added and the same name comes back.
pub proof fn lemma_intern_idempotent(cs: Seq<(Seq<char>, usize)>, init: Seq<char>, alignment: usize)
    requires
        forall|i: int, j: int| 0 <= i < cs.len() && 0 <= j < cs.len() && i != j ==> cs[i] != cs[j],
    ensures
        intern(intern(cs, init, alignment).0, init, alignment) == intern(cs, init, alignment),
{
    let (cs1, n1) = intern(cs, init, alignment);
    if exists|i: int| 0 <= i < cs.len() && cs[i] == (init, alignment) {
    } else {
        assert(cs1[cs.len() as int] == (init, alignment));
        let k = choose|i: int| 0 <= i < cs1.len() && cs1[i] == (init, alignment);
        if k < cs.len() {
            assert(cs1[k] == cs[k]);
        }
        assert(k == cs.len());
    }
}

} // verus!

verus! {

/// The value a bit pattern `x` (in `0 .. 2 * half`) stands for in two's
/// complement, where `half` is the first pattern with the sign bit set.
pub open spec fn signed_value(x: int, half: int) -> int {
    if x >= half {
        x - 2 * half
    } else {
        x
    }
}

/// The bit pattern (in `0 .. 2 * half`) that holds `a` (in `-half .. 2 * half`).
pub open spec fn bit_pattern(a: int, half: int) -> int {
    if a < 0 {
        a + 2 * half
    } else {
        a
    }
}

/// Whether condition `cc` holds once `cmp` has compared the bit pattern `x`
/// against the bit pattern `y` (the flags of `x - y`): `E`/`NE` test
/// equality, `L`/`LE`/`G`/`GE` order the patterns as signed values, and
/// `B`/`BE`/`A`/`AE` order them as unsigned ones. `P` and `NP` test the
/// parity flag, which says nothing of the order; they have no answer here.
pub open spec fn cond_holds(cc: Condition, x: int, y: int, half: int) -> Option<bool> {
    match cc {
        Condition::E => Some(x == y),
        Condition::NE => Some(x != y),
        Condition::L => Some(signed_value(x, half) < signed_value(y, half)),
        Condition::LE => Some(signed_value(x, half) <= signed_value(y, half)),
        Condition::G => Some(signed_value(x, half) > signed_value(y, half)),
        Condition::GE => Some(signed_value(x, half) >= signed_value(y, half)),
        Condition::B => Some(x < y),
        Condition::BE => Some(x <= y),
        Condition::A => Some(x > y),
        Condition::AE => Some(x >= y),
        Condition::P | Condition::NP => None,
    }
}

} // verus!

verus! {

/// What an x86 unary operation makes of the value `a` in its operand:
/// `neg` negates it and `not` flips every bit, giving `-a - 1`.
pub open spec fn asm_unary_value(op: UnaryOp, a: int) -> int {
    match op {
        UnaryOp::Neg => -a,
        UnaryOp::Not => -a - 1,
    }
}

/// What an x86 binary operation makes of the value `a` in its destination
/// and `b` in its source, for registers of `2 * half` patterns, before the
/// result is cut to the register: sums, differences and products; bitwise
/// operations on the two's complement bits; `sal`/`shl` multiply by a power
/// of two; `sar` divides the signed value and `shr` the unsigned pattern by
/// a power of two, rounding down. Floating-point division has no integer value.
pub open spec fn asm_binary_value(op: BinaryOp, a: i128, b: i128, half: int) -> Option<int> {
    match op {
        BinaryOp::Add => Some(a + b),
        BinaryOp::Sub => Some(a - b),
        BinaryOp::Mult => Some(a * b),
        BinaryOp::BitAnd => Some((a & b) as int),
        BinaryOp::BitOr => Some((a | b) as int),
        BinaryOp::BitXor => Some((a ^ b) as int),
        BinaryOp::Sal | BinaryOp::Shl => if b < 0 { None } else { Some(a * vstd::arithmetic::power2::pow2(b as nat)) },
        BinaryOp::Sar => if b < 0 { None } else {
            Some(signed_value(bit_pattern(a as int, half), half) / (vstd::arithmetic::power2::pow2(b as nat) as int))
        },
        BinaryOp::Shr => if b < 0 { None } else {
            Some(bit_pattern(a as int, half) / (vstd::arithmetic::power2::pow2(b as nat) as int))
        },
        BinaryOp::DivDouble => None,
    }
}

/// What x86 integer division leaves in a register: the quotient, rounded
/// toward zero, in `AX` and the remainder in `DX`; nothing of interest in
/// the others.
pub open spec fn division_leaves(r: Register, a: int, b: int) -> Option<int> {
    match r {
        Register::AX => Some(crate::semanal::switch_collector::tdiv(a, b)),
        Register::DX => Some(crate::semanal::switch_collector::trem(a, b)),
        _ => None,
    }
}

} // verus!

verus! {

/// Law: the first six integer arguments and the first eight floating-point
/// arguments each go to a register of their own.
pub proof fn lemma_arg_regs_distinct(i: int, j: int)
    ensures
        0 <= i < j < 6 ==> int_arg_reg(i) != int_arg_reg(j),
        0 <= i < j < 8 ==> float_arg_reg(i) != float_arg_reg(j),
{
}

} // verus!
