use vstd::prelude::*;

use crate::codegen::asm_ast::{
    AsmFunction, AsmInstruction, AsmType, BinaryOp, Operand, RegSize, Register, get_alignment,
    get_regsize, spec_alignment, spec_regsize,
};
use crate::codegen::asm_symtab::{AsmSymbol, AsmSymbolTable};
use crate::namemap::NameMap;
use crate::codegen::slots::{lemma_stack_slots_sound, slots_laid_out};

verus! {

broadcast use vstd::std_specs::vec::group_vec_axioms, vstd::seq::group_seq_axioms;

/// Size in bytes.
pub open spec fn spec_size(t: AsmType) -> int {
    match t {
        AsmType::Byte => 1,
        AsmType::Longword => 4,
        AsmType::Quadword => 8,
        AsmType::Double => 8,
    }
}

fn get_size(asmtype: &AsmType) -> (r: i32)
    ensures
        r == spec_size(*asmtype),
{
    match asmtype {
        AsmType::Byte => 1,
        AsmType::Longword => 4,
        AsmType::Quadword => 8,
        AsmType::Double => 8,
    }
}

/// Which of the two scratch registers of a type to use.
pub enum Scratch {
    Source,
    Dest,
}

/// The scratch registers: `r10`/`r11` for integers, `xmm14`/`xmm15` for doubles.
pub open spec fn scratch_reg(t: AsmType, source: bool) -> Operand {
    if t == AsmType::Double {
        if source {
            Operand::Reg(Register::XMM14, RegSize::Quad)
        } else {
            Operand::Reg(Register::XMM15, RegSize::Quad)
        }
    } else {
        if source {
            Operand::Reg(Register::R10, spec_regsize(t))
        } else {
            Operand::Reg(Register::R11, spec_regsize(t))
        }
    }
}

fn get_reg(asmtype: &AsmType, scratch: Scratch) -> (r: Operand)
    ensures
        r == scratch_reg(*asmtype, scratch is Source),
        r is Reg,
{
    if matches!(asmtype, AsmType::Double) {
        if matches!(scratch, Scratch::Source) {
            Operand::Reg(Register::XMM14, RegSize::Quad)
        } else {
            Operand::Reg(Register::XMM15, RegSize::Quad)
        }
    } else {
        if matches!(scratch, Scratch::Source) {
            Operand::Reg(Register::R10, get_regsize(asmtype))
        } else {
            Operand::Reg(Register::R11, get_regsize(asmtype))
        }
    }
}

/// The offset of a new stack slot for a value of type `t`, below `offset`
/// and aligned for `t`.
pub open spec fn new_slot(offset: i32, t: AsmType) -> i32 {
    ((offset - spec_size(t)) as i32) & !((spec_alignment(t) - 1) as i32)
}

pub(crate) proof fn lemma_new_slot(offset: i32, t: AsmType)
    requires
        offset >= -2000000000,
        offset <= 0,
    ensures
        offset - 15 <= new_slot(offset, t) <= offset - spec_size(t),
        new_slot(offset, t) < 0,
{
    let x = (offset - spec_size(t)) as i32;
    match t {
        AsmType::Byte => {
            assert(x & !0i32 == x) by (bit_vector);
        },
        AsmType::Longword => {
            assert(x & !3i32 <= x && x & !3i32 > x - 4) by (bit_vector);
        },
        _ => {
            assert(x & !7i32 <= x && x & !7i32 > x - 8) by (bit_vector);
        },
    }
}

/// The frame size for a lowest offset of `offset`: `-offset` rounded up to
/// a multiple of 16.
pub open spec fn frame_size(offset: i32) -> int {
    (15 - offset) / 16 * 16
}

pub(crate) proof fn lemma_frame_size(offset: i32)
    requires
        -2000000000 <= offset <= 0,
    ensures
        frame_size(offset) % 16 == 0,
        -offset <= frame_size(offset) <= 2000000016,
{
    assert((15 - offset) / 16 * 16 % 16 == 0) by (nonlinear_arith);
    assert((15 - offset) / 16 * 16 >= -offset) by (nonlinear_arith)
        requires
            offset <= 0,
    ;
    assert((15 - offset) / 16 * 16 <= 15 - offset) by (nonlinear_arith)
        requires
            offset <= 0,
    ;
}

/// The stack slot of each name met so far.
pub type Slots = spec_fn(Seq<char>) -> Option<i32>;

/// What fixing emits, with the slot state it leaves: the lowest offset handed
/// out and the slot of each name.
pub type Fixed = (Seq<AsmInstruction>, i32, Slots);

/// No name has a slot yet.
pub open spec fn no_slots() -> Slots {
    |n: Seq<char>| None::<i32>
}

/// The operand that replaces `op`: a static object's data reference, a
/// stack slot (a new one, just below `off`, the first time a name is met),
/// or `op` itself; with the slot state after.
pub open spec fn rop(syms: AsmSymbolTable, off: i32, slots: Slots, op: Operand) -> (Operand, i32, Slots) {
    match op {
        Operand::Pseudo(id) => match syms.spec_get(id@) {
            Some(AsmSymbol::ObjEntry(t, true, _)) => (Operand::Data(id), off, slots),
            Some(AsmSymbol::ObjEntry(t, false, _)) => match slots(id@) {
                Some(k) => (Operand::Stack(k), off, slots),
                None => {
                    let k = new_slot(off, t);
                    (Operand::Stack(k), k, |n: Seq<char>| if n == id@ { Some(k) } else { slots(n) })
                },
            },
            _ => (op, off, slots),
        },
        _ => (op, off, slots),
    }
}

pub open spec fn sreg(t: AsmType) -> Operand {
    scratch_reg(t, true)
}

pub open spec fn dreg(t: AsmType) -> Operand {
    scratch_reg(t, false)
}

/// A source immediate too large for the instruction, moved to a scratch
/// register first; with the operand and type to use after.
pub open spec fn large_src(t: AsmType, v: Operand) -> (Seq<AsmInstruction>, Operand, AsmType) {
    if v.spec_is_large_64bit_imm() {
        (seq![AsmInstruction::Mov(AsmType::Quadword, v, sreg(AsmType::Quadword))], sreg(AsmType::Quadword), AsmType::Quadword)
    } else if v.spec_is_large_32bit_imm() && t == AsmType::Quadword {
        (seq![AsmInstruction::Mov(AsmType::Longword, v, sreg(AsmType::Longword))], sreg(AsmType::Quadword), AsmType::Quadword)
    } else {
        (Seq::empty(), v, t)
    }
}

/// A binary instruction whose destination must be a register, run in the
/// destination scratch register where it is not one.
pub open spec fn via_dest(op: BinaryOp, t: AsmType, s: Operand, d: Operand) -> Seq<AsmInstruction> {
    if !(d is Reg) {
        seq![
            AsmInstruction::Mov(t, d, dreg(t)),
            AsmInstruction::Binary(op, t, s, dreg(t)),
            AsmInstruction::Mov(t, dreg(t), d),
        ]
    } else {
        seq![AsmInstruction::Binary(op, t, s, d)]
    }
}

pub open spec fn fixed_mov(t: AsmType, s: Operand, d: Operand) -> Seq<AsmInstruction> {
    if t != AsmType::Double {
        if s.spec_is_memory() && d.spec_is_memory() {
            seq![AsmInstruction::Mov(t, s, sreg(t)), AsmInstruction::Mov(t, sreg(t), d)]
        } else if s.spec_is_large_32bit_imm() && t == AsmType::Quadword {
            seq![
                AsmInstruction::Mov(AsmType::Longword, s, sreg(AsmType::Longword)),
                AsmInstruction::Mov(AsmType::Quadword, sreg(AsmType::Quadword), d),
            ]
        } else if s.spec_is_large_64bit_imm() {
            seq![
                AsmInstruction::Mov(AsmType::Quadword, s, sreg(AsmType::Quadword)),
                AsmInstruction::Mov(AsmType::Quadword, sreg(AsmType::Quadword), d),
            ]
        } else {
            seq![AsmInstruction::Mov(t, s, d)]
        }
    } else if s.spec_is_memory() && d.spec_is_memory() {
        seq![AsmInstruction::Mov(t, s, dreg(t)), AsmInstruction::Mov(t, dreg(t), d)]
    } else {
        seq![AsmInstruction::Mov(t, s, d)]
    }
}

pub open spec fn fixed_movsx(s0: Operand, d: Operand) -> Seq<AsmInstruction> {
    let pre = if s0 is Imm {
        seq![AsmInstruction::Mov(AsmType::Longword, s0, sreg(AsmType::Longword))]
    } else {
        Seq::empty()
    };
    let s = if s0 is Imm { sreg(AsmType::Longword) } else { s0 };
    pre + if !(d is Reg) {
        seq![AsmInstruction::Movsx(s, dreg(AsmType::Quadword)), AsmInstruction::Mov(AsmType::Quadword, dreg(AsmType::Quadword), d)]
    } else {
        seq![AsmInstruction::Movsx(s, d)]
    }
}

pub open spec fn fixed_division(signed: bool, t: AsmType, s0: Operand) -> Seq<AsmInstruction> {
    let pre = if s0 is Imm { seq![AsmInstruction::Mov(t, s0, sreg(t))] } else { Seq::empty() };
    let s = if s0 is Imm { sreg(t) } else { s0 };
    pre + seq![if signed { AsmInstruction::Idiv(t, s) } else { AsmInstruction::Div(t, s) }]
}

pub open spec fn fixed_compare(t0: AsmType, a: Operand, b: Operand) -> Seq<AsmInstruction> {
    let (p1, v1, t) = large_src(t0, a);
    let (p2, v2) = if b is Imm { (seq![AsmInstruction::Mov(t, b, dreg(t))], dreg(t)) } else { (Seq::empty(), b) };
    let (p3, v3) = if t == AsmType::Double && !(v2 is Reg) {
        (seq![AsmInstruction::Mov(t, v2, dreg(t))], dreg(t))
    } else {
        (Seq::empty(), v2)
    };
    let (p4, v4) = if v1.spec_is_memory() && v3.spec_is_memory() {
        (seq![AsmInstruction::Mov(t, v1, sreg(t))], sreg(t))
    } else {
        (Seq::empty(), v1)
    };
    p1 + p2 + p3 + p4 + seq![AsmInstruction::Cmp(t, v4, v3)]
}

pub open spec fn fixed_movzx(s: Operand, d: Operand) -> Seq<AsmInstruction> {
    if d is Reg {
        seq![AsmInstruction::Mov(AsmType::Longword, s, d)]
    } else if d.spec_is_memory() {
        seq![
            AsmInstruction::Mov(AsmType::Longword, s, dreg(AsmType::Longword)),
            AsmInstruction::Mov(AsmType::Quadword, dreg(AsmType::Quadword), d),
        ]
    } else {
        Seq::empty()
    }
}

pub open spec fn fixed_cvttsd2si(t: AsmType, s: Operand, d: Operand) -> Seq<AsmInstruction> {
    if !(d is Reg) {
        seq![AsmInstruction::Cvttsd2si(t, s, dreg(t)), AsmInstruction::Mov(t, dreg(t), d)]
    } else {
        seq![AsmInstruction::Cvttsd2si(t, s, d)]
    }
}

pub open spec fn fixed_cvtsi2sd(t: AsmType, s0: Operand, d: Operand) -> Seq<AsmInstruction> {
    let pre = if s0 is Imm { seq![AsmInstruction::Mov(t, s0, sreg(t))] } else { Seq::empty() };
    let s = if s0 is Imm { sreg(t) } else { s0 };
    pre + if !(d is Reg) {
        seq![AsmInstruction::Cvtsi2sd(t, s, dreg(AsmType::Double)), AsmInstruction::Mov(AsmType::Double, dreg(AsmType::Double), d)]
    } else {
        seq![AsmInstruction::Cvtsi2sd(t, s, d)]
    }
}

pub open spec fn fixed_binary(op: BinaryOp, t0: AsmType, s0: Operand, d: Operand) -> Seq<AsmInstruction> {
    match op {
        BinaryOp::Add | BinaryOp::Sub | BinaryOp::BitAnd | BinaryOp::BitOr | BinaryOp::BitXor => if t0 != AsmType::Double {
            let (p1, s1, t) = large_src(t0, s0);
            let (p2, s2) = if s1.spec_is_memory() && d.spec_is_memory() {
                (seq![AsmInstruction::Mov(t, s1, sreg(t))], sreg(t))
            } else {
                (Seq::empty(), s1)
            };
            p1 + p2 + seq![AsmInstruction::Binary(op, t, s2, d)]
        } else {
            via_dest(op, t0, s0, d)
        },
        BinaryOp::DivDouble => via_dest(op, t0, s0, d),
        BinaryOp::Mult => {
            let (p1, s1, t) = if t0 != AsmType::Double { large_src(t0, s0) } else { (Seq::empty(), s0, t0) };
            p1 + via_dest(op, t, s1, d)
        },
        _ => seq![AsmInstruction::Binary(op, t0, s0, d)],
    }
}

/// What fixing one instruction emits: its operands replaced as [`rop`]
/// says, source operand first, and the forms x86-64 cannot encode
/// rewritten through the scratch registers.
pub open spec fn fix_inst(syms: AsmSymbolTable, off: i32, slots: Slots, inst: AsmInstruction) -> Fixed {
    match inst {
        AsmInstruction::Mov(t, a, b) => {
            let (s, o1, l1) = rop(syms, off, slots, a);
            let (d, o2, l2) = rop(syms, o1, l1, b);
            (fixed_mov(t, s, d), o2, l2)
        },
        AsmInstruction::Movsx(a, b) => {
            let (s, o1, l1) = rop(syms, off, slots, a);
            let (d, o2, l2) = rop(syms, o1, l1, b);
            (fixed_movsx(s, d), o2, l2)
        },
        AsmInstruction::Unary(op, t, a) => {
            let (d, o1, l1) = rop(syms, off, slots, a);
            (seq![AsmInstruction::Unary(op, t, d)], o1, l1)
        },
        AsmInstruction::Binary(op, t, a, b) => {
            let (s, o1, l1) = rop(syms, off, slots, a);
            let (d, o2, l2) = rop(syms, o1, l1, b);
            (fixed_binary(op, t, s, d), o2, l2)
        },
        AsmInstruction::Idiv(t, a) => {
            let (s, o1, l1) = rop(syms, off, slots, a);
            (fixed_division(true, t, s), o1, l1)
        },
        AsmInstruction::Div(t, a) => {
            let (s, o1, l1) = rop(syms, off, slots, a);
            (fixed_division(false, t, s), o1, l1)
        },
        AsmInstruction::Cmp(t, a, b) => {
            let (s, o1, l1) = rop(syms, off, slots, a);
            let (d, o2, l2) = rop(syms, o1, l1, b);
            (fixed_compare(t, s, d), o2, l2)
        },
        AsmInstruction::SetCC(c, a) => {
            let (d, o1, l1) = rop(syms, off, slots, a);
            (seq![AsmInstruction::SetCC(c, d)], o1, l1)
        },
        AsmInstruction::Push(a) => {
            let (v, o1, l1) = rop(syms, off, slots, a);
            (seq![AsmInstruction::Push(v)], o1, l1)
        },
        AsmInstruction::MovZeroExtend(a, b) => {
            let (s, o1, l1) = rop(syms, off, slots, a);
            let (d, o2, l2) = rop(syms, o1, l1, b);
            (fixed_movzx(s, d), o2, l2)
        },
        AsmInstruction::Cvttsd2si(t, a, b) => {
            let (s, o1, l1) = rop(syms, off, slots, a);
            let (d, o2, l2) = rop(syms, o1, l1, b);
            (fixed_cvttsd2si(t, s, d), o2, l2)
        },
        AsmInstruction::Cvtsi2sd(t, a, b) => {
            let (s, o1, l1) = rop(syms, off, slots, a);
            let (d, o2, l2) = rop(syms, o1, l1, b);
            (fixed_cvtsi2sd(t, s, d), o2, l2)
        },
        _ => (seq![inst], off, slots),
    }
}

/// The instructions of a body fixed in order, starting with no slot handed out.
pub open spec fn fix_body(syms: AsmSymbolTable, insts: Seq<AsmInstruction>) -> Fixed
    decreases insts.len(),
{
    if insts.len() == 0 {
        (Seq::empty(), 0, no_slots())
    } else {
        let (o, off, sl) = fix_body(syms, insts.drop_last());
        let (o2, off2, sl2) = fix_inst(syms, off, sl, insts.last());
        (o + o2, off2, sl2)
    }
}

/// A function body with its stack frame: `rsp` lowered by the frame size,
/// then the fixed instructions.
pub open spec fn framed_body(syms: AsmSymbolTable, insts: Seq<AsmInstruction>) -> Seq<AsmInstruction> {
    let (o, off, _) = fix_body(syms, insts);
    seq![
        AsmInstruction::Binary(
            BinaryOp::Sub,
            AsmType::Quadword,
            Operand::Imm(frame_size(off) as i64),
            Operand::Reg(Register::SP, RegSize::Quad),
        ),
    ] + o
}

/// A name that appears as a pseudo-register must be a non-constant object.
pub open spec fn pseudo_ok(symbols: AsmSymbolTable, op: Operand) -> bool {
    op matches Operand::Pseudo(id) ==> symbols.spec_get(id@) matches Some(AsmSymbol::ObjEntry(_, _, false))
}

/// Every operand of `inst` satisfies [`pseudo_ok`].
pub open spec fn inst_pseudos_ok(symbols: AsmSymbolTable, inst: AsmInstruction) -> bool {
    match inst {
        AsmInstruction::Mov(_, s, d) => pseudo_ok(symbols, s) && pseudo_ok(symbols, d),
        AsmInstruction::Movsx(s, d) => pseudo_ok(symbols, s) && pseudo_ok(symbols, d),
        AsmInstruction::MovZeroExtend(s, d) => pseudo_ok(symbols, s) && pseudo_ok(symbols, d),
        AsmInstruction::Unary(_, _, d) => pseudo_ok(symbols, d),
        AsmInstruction::Binary(_, _, s, d) => pseudo_ok(symbols, s) && pseudo_ok(symbols, d),
        AsmInstruction::Cmp(_, s, d) => pseudo_ok(symbols, s) && pseudo_ok(symbols, d),
        AsmInstruction::Idiv(_, s) => pseudo_ok(symbols, s),
        AsmInstruction::Div(_, s) => pseudo_ok(symbols, s),
        AsmInstruction::SetCC(_, d) => pseudo_ok(symbols, d),
        AsmInstruction::Push(v) => pseudo_ok(symbols, v),
        AsmInstruction::Cvttsd2si(_, s, d) => pseudo_ok(symbols, s) && pseudo_ok(symbols, d),
        AsmInstruction::Cvtsi2sd(_, s, d) => pseudo_ok(symbols, s) && pseudo_ok(symbols, d),
        _ => true,
    }
}

pub open spec fn no_pseudo(op: Operand) -> bool {
    !(op is Pseudo)
}

pub open spec fn is_shift(op: BinaryOp) -> bool {
    op is Sal || op is Sar || op is Shl || op is Shr
}

/// What the fixer guarantees of each instruction it emits: no pseudo-register
/// is left, no instruction but a shift reads and writes memory at once, and
/// the operands that x86-64 requires in a register or not immediate are so.
pub open spec fn legal(inst: AsmInstruction) -> bool {
    match inst {
        AsmInstruction::Mov(_, s, d) => no_pseudo(s) && no_pseudo(d) && !(s.spec_is_memory() && d.spec_is_memory()),
        AsmInstruction::Movsx(s, d) => no_pseudo(s) && !(s is Imm) && d is Reg,
        AsmInstruction::MovZeroExtend(..) => false,
        AsmInstruction::Unary(_, _, d) => no_pseudo(d),
        AsmInstruction::Binary(op, _, s, d) => no_pseudo(s) && no_pseudo(d) && (is_shift(op) || !(
        s.spec_is_memory() && d.spec_is_memory())),
        AsmInstruction::Cmp(_, a, b) => no_pseudo(a) && no_pseudo(b) && !(b is Imm) && !(a.spec_is_memory()
            && b.spec_is_memory()),
        AsmInstruction::Idiv(_, s) => no_pseudo(s) && !(s is Imm),
        AsmInstruction::Div(_, s) => no_pseudo(s) && !(s is Imm),
        AsmInstruction::SetCC(_, d) => no_pseudo(d),
        AsmInstruction::Push(v) => no_pseudo(v),
        AsmInstruction::Cvttsd2si(_, s, d) => no_pseudo(s) && d is Reg,
        AsmInstruction::Cvtsi2sd(_, s, d) => no_pseudo(s) && !(s is Imm) && d is Reg,
        _ => true,
    }
}

/// Gives every function its stack frame: pseudo-registers become stack slots
/// or data references and every instruction becomes encodable.
pub fn assign_stack_slots(funcs: Vec<AsmFunction>, symbols: &AsmSymbolTable) -> (r: Vec<AsmFunction>)
    requires
        forall|i: int| 0 <= i < funcs@.len() ==> (#[trigger] funcs@[i]).body@.len() <= 60000000,
        forall|i: int, j: int| 0 <= i < funcs@.len() && 0 <= j < funcs@[i].body@.len() ==> inst_pseudos_ok(
            *symbols,
            #[trigger] funcs@[i].body@[j],
        ),
    ensures
        r@.len() == funcs@.len(),
        forall|i: int| 0 <= i < r@.len() ==> {
            &&& (#[trigger] r@[i]).identifier == funcs@[i].identifier
            &&& r@[i].global == funcs@[i].global
            &&& r@[i].body@.len() >= 1
            &&& r@[i].body@[0] matches AsmInstruction::Binary(BinaryOp::Sub, AsmType::Quadword, Operand::Imm(frame), Operand::Reg(Register::SP, RegSize::Quad))
                && frame % 16 == 0
            &&& forall|j: int| 0 <= j < r@[i].body@.len() ==> legal(#[trigger] r@[i].body@[j])
            &&& r@[i].body@ == framed_body(*symbols, funcs@[i].body@)
        },
        forall|i: int| 0 <= i < funcs@.len() ==> slots_laid_out(*symbols, #[trigger] funcs@[i].body@),
{
    let mut rest = funcs;
    let mut functions: Vec<AsmFunction> = Vec::new();
    let ghost n = rest@.len();
    while rest.len() > 0
        invariant
            functions@.len() + rest@.len() == n,
            n == funcs@.len(),
            rest@ == funcs@.subrange(functions@.len() as int, n as int),
            forall|i: int| 0 <= i < funcs@.len() ==> (#[trigger] funcs@[i]).body@.len() <= 60000000,
            forall|i: int, j: int| 0 <= i < funcs@.len() && 0 <= j < funcs@[i].body@.len() ==> inst_pseudos_ok(
                *symbols,
                #[trigger] funcs@[i].body@[j],
            ),
            forall|i: int| 0 <= i < functions@.len() ==> {
                &&& (#[trigger] functions@[i]).identifier == funcs@[i].identifier
                &&& functions@[i].global == funcs@[i].global
                &&& functions@[i].body@.len() >= 1
                &&& functions@[i].body@[0] matches AsmInstruction::Binary(BinaryOp::Sub, AsmType::Quadword, Operand::Imm(frame), Operand::Reg(Register::SP, RegSize::Quad))
                    && frame % 16 == 0
                &&& forall|j: int| 0 <= j < functions@[i].body@.len() ==> legal(#[trigger] functions@[i].body@[j])
                &&& functions@[i].body@ == framed_body(*symbols, funcs@[i].body@)
            },
        decreases rest@.len(),
    {
        let ghost k = functions@.len() as int;
        let func = rest.remove(0);
        assert(func == funcs@[k]);
        let mut fixer = OpFixer::new(func, symbols);
        let fixed = fixer.assign_slots();
        proof {
            let frame = frame_size(fixer.offset);
            assert(fixed.body@[0] == AsmInstruction::Binary(BinaryOp::Sub, AsmType::Quadword, Operand::Imm(frame as i64), Operand::Reg(Register::SP, RegSize::Quad)));
            assert((frame as i64) % 16 == 0);
        }
        functions.push(fixed);
        assert(rest@ =~= funcs@.subrange(functions@.len() as int, n as int));
    }
    assert forall|i: int| 0 <= i < funcs@.len() implies slots_laid_out(*symbols, #[trigger] funcs@[i].body@) by {
        lemma_stack_slots_sound(*symbols, funcs@[i].body@);
    }
    functions
}

/// Replaces the pseudo-registers of one function by stack slots and data
/// references, and rewrites the instructions x86-64 cannot encode.
pub struct OpFixer<'a> {
    pub old: AsmFunction,
    pub symbols: &'a AsmSymbolTable,
    pub new: Vec<AsmInstruction>,
    pub offset: i32,
    pub offset_map: NameMap<i32>,
}

impl<'a> OpFixer<'a> {
    /// The fixer's invariant: every slot handed out lies between `offset`
    /// and the frame base, and `offset` is far from overflowing.
    pub open spec fn inv(self) -> bool {
        &&& -2000000000 <= self.offset <= 0
        &&& forall|n: Seq<char>| #[trigger] self.offset_map.spec_get(n) matches Some(k) ==> self.offset <= k < 0
        &&& forall|i: int| 0 <= i < self.new@.len() ==> legal(#[trigger] self.new@[i])
    }

    /// The slot handed out for each name.
    pub open spec fn slots(self) -> Slots {
        |n: Seq<char>| self.offset_map.spec_get(n)
    }

    /// `after` is `before` having emitted and handed out what `f` says.
    pub open spec fn did(before: Self, after: Self, f: Fixed) -> bool {
        &&& after.new@ == before.new@ + f.0
        &&& after.offset == f.1
        &&& after.slots() == f.2
    }

    pub fn new(old: AsmFunction, symbols: &'a AsmSymbolTable) -> (r: OpFixer<'a>)
        ensures
            r.old == old,
            r.symbols == symbols,
            r.new@.len() == 0,
            r.offset == 0,
            forall|n: Seq<char>| r.offset_map.spec_get(n) is None,
            r.slots() == no_slots(),
            r.inv(),
    {
        let r = OpFixer { old, symbols, new: Vec::new(), offset: 0, offset_map: NameMap::new() };
        assert(r.slots() =~= no_slots());
        r
    }

    fn push(&mut self, inst: AsmInstruction)
        requires
            old(self).inv(),
            legal(inst),
        ensures
            final(self).new@ == old(self).new@.push(inst),
            final(self).old == old(self).old,
            final(self).symbols == old(self).symbols,
            final(self).offset == old(self).offset,
            final(self).offset_map == old(self).offset_map,
            final(self).inv(),
    {
        self.new.push(inst);
    }

    /// The operand that replaces `op`: a static object's data reference, or a
    /// stack slot, a new one the first time a name is met; other operands
    /// are kept.
    fn res_op(&mut self, op: Operand) -> (r: Operand)
        requires
            old(self).inv(),
            old(self).offset >= -1999999900,
            pseudo_ok(*old(self).symbols, op),
        ensures
            final(self).inv(),
            final(self).old == old(self).old,
            final(self).symbols == old(self).symbols,
            final(self).new == old(self).new,
            final(self).offset >= old(self).offset - 15,
            no_pseudo(r),
            ({
                let x = rop(*old(self).symbols, old(self).offset, old(self).slots(), op);
                r == x.0 && final(self).offset == x.1 && final(self).slots() == x.2
            }),
            !(op is Pseudo) ==> r == op && final(self).offset == old(self).offset
                && final(self).offset_map == old(self).offset_map,
            op matches Operand::Pseudo(id) ==> match old(self).symbols.spec_get(id@) {
                Some(AsmSymbol::ObjEntry(t, true, _)) => r == Operand::Data(id)
                    && final(self).offset == old(self).offset && final(self).offset_map == old(self).offset_map,
                Some(AsmSymbol::ObjEntry(t, false, _)) => match old(self).offset_map.spec_get(id@) {
                    Some(k) => r == Operand::Stack(k) && final(self).offset == old(self).offset
                        && final(self).offset_map == old(self).offset_map,
                    None => r == Operand::Stack(new_slot(old(self).offset, t)) && final(self).offset
                        == new_slot(old(self).offset, t) && forall|n: Seq<char>| #[trigger] final(self).offset_map.spec_get(n)
                        == if n == id@ {
                        Some(new_slot(old(self).offset, t))
                    } else {
                        old(self).offset_map.spec_get(n)
                    },
                },
                _ => false,
            },
    {
        match op {
            Operand::Pseudo(ident) => {
                let (asmtype, is_static) = match self.symbols.get(&ident) {
                    Some(AsmSymbol::ObjEntry(t, s, _)) => (*t, *s),
                    _ => vstd::pervasive::unreached(),
                };
                if is_static {
                    return Operand::Data(ident);
                }
                match self.offset_map.get(&ident) {
                    Some(k) => Operand::Stack(*k),
                    None => {
                        let size = get_size(&asmtype);
                        let align = get_alignment(&asmtype) as i32;
                        proof {
                            lemma_new_slot(self.offset, asmtype);
                        }
                        let slot = (self.offset - size) & !(align - 1);
                        assert(slot == new_slot(self.offset, asmtype));
                        let ghost before = self.slots();
                        let ghost id = ident@;
                        self.offset = slot;
                        self.offset_map.insert(ident, slot);
                        assert(self.slots() =~= (|n: Seq<char>| if n == id { Some(slot) } else { before(n) }));
                        Operand::Stack(slot)
                    },
                }
            },
            other => other,
        }
    }

    /// `after` is `before` with instructions appended, its invariant kept,
    /// and its offset lowered by at most `budget`.
    pub open spec fn step(before: Self, after: Self, budget: int) -> bool {
        &&& after.inv()
        &&& after.old == before.old
        &&& after.symbols == before.symbols
        &&& after.offset >= before.offset - budget
        &&& after.new@.len() >= before.new@.len()
        &&& after.new@.subrange(0, before.new@.len() as int) == before.new@
    }

    fn fix_mov(&mut self, t: AsmType, src: Operand, dst: Operand)
        requires
            old(self).inv(),
            old(self).offset >= -1999999800,
            pseudo_ok(*old(self).symbols, src),
            pseudo_ok(*old(self).symbols, dst),
        ensures
            Self::step(*old(self), *final(self), 30),
            Self::did(*old(self), *final(self), fix_inst(*old(self).symbols, old(self).offset, old(self).slots(), AsmInstruction::Mov(t, src, dst))),
    {
        let ghost start = self.new@;
        let s = self.res_op(src);
        let d = self.res_op(dst);
        let ghost gs = s;
        let ghost gd = d;
        if !t.is_double() {
            if s.is_memory() && d.is_memory() {
                let temp = get_reg(&t, Scratch::Source);
                self.push(AsmInstruction::Mov(t, s, temp.duplicate()));
                self.push(AsmInstruction::Mov(t, temp, d));
            } else if s.is_large_32bit_imm() && t == AsmType::Quadword {
                let temp = get_reg(&AsmType::Longword, Scratch::Source);
                self.push(AsmInstruction::Mov(AsmType::Longword, s, temp));
                let temp = get_reg(&AsmType::Quadword, Scratch::Source);
                self.push(AsmInstruction::Mov(AsmType::Quadword, temp, d));
            } else if s.is_large_64bit_imm() {
                let temp = get_reg(&AsmType::Quadword, Scratch::Source);
                self.push(AsmInstruction::Mov(AsmType::Quadword, s, temp.duplicate()));
                self.push(AsmInstruction::Mov(AsmType::Quadword, temp, d));
            } else {
                self.push(AsmInstruction::Mov(t, s, d));
            }
        } else {
            if s.is_memory() && d.is_memory() {
                let temp = get_reg(&t, Scratch::Dest);
                self.push(AsmInstruction::Mov(t, s, temp.duplicate()));
                self.push(AsmInstruction::Mov(t, temp, d));
            } else {
                self.push(AsmInstruction::Mov(t, s, d));
            }
        }
        assert(self.new@ =~= start + fixed_mov(t, gs, gd));
        assert(self.new@.subrange(0, start.len() as int) =~= start);
    }

    fn fix_movsx(&mut self, src: Operand, dst: Operand)
        requires
            old(self).inv(),
            old(self).offset >= -1999999800,
            pseudo_ok(*old(self).symbols, src),
            pseudo_ok(*old(self).symbols, dst),
        ensures
            Self::step(*old(self), *final(self), 30),
            Self::did(*old(self), *final(self), fix_inst(*old(self).symbols, old(self).offset, old(self).slots(), AsmInstruction::Movsx(src, dst))),
    {
        let ghost start = self.new@;
        let mut s = self.res_op(src);
        let d = self.res_op(dst);
        let ghost gs = s;
        let ghost gd = d;
        if s.is_imm() {
            let temp = get_reg(&AsmType::Longword, Scratch::Source);
            self.push(AsmInstruction::Mov(AsmType::Longword, s, temp.duplicate()));
            s = temp;
        }
        if !d.is_reg() {
            let temp = get_reg(&AsmType::Quadword, Scratch::Dest);
            self.push(AsmInstruction::Movsx(s, temp.duplicate()));
            self.push(AsmInstruction::Mov(AsmType::Quadword, temp, d));
        } else {
            self.push(AsmInstruction::Movsx(s, d));
        }
        assert(self.new@ =~= start + fixed_movsx(gs, gd));
        assert(self.new@.subrange(0, start.len() as int) =~= start);
    }

    /// `idiv` when `signed`, else `div`: the divisor cannot be an immediate.
    fn fix_division(&mut self, signed: bool, t: AsmType, src: Operand)
        requires
            old(self).inv(),
            old(self).offset >= -1999999800,
            pseudo_ok(*old(self).symbols, src),
        ensures
            Self::step(*old(self), *final(self), 30),
            Self::did(*old(self), *final(self), fix_inst(*old(self).symbols, old(self).offset, old(self).slots(), if signed { AsmInstruction::Idiv(t, src) } else { AsmInstruction::Div(t, src) })),
    {
        let ghost start = self.new@;
        let mut s = self.res_op(src);
        let ghost gs = s;
        if s.is_imm() {
            let temp = get_reg(&t, Scratch::Source);
            self.push(AsmInstruction::Mov(t, s, temp.duplicate()));
            s = temp;
        }
        if signed {
            self.push(AsmInstruction::Idiv(t, s));
        } else {
            self.push(AsmInstruction::Div(t, s));
        }
        assert(self.new@ =~= start + fixed_division(signed, t, gs));
        assert(self.new@.subrange(0, start.len() as int) =~= start);
    }

    fn fix_compare(&mut self, t0: AsmType, a: Operand, b: Operand)
        requires
            old(self).inv(),
            old(self).offset >= -1999999800,
            pseudo_ok(*old(self).symbols, a),
            pseudo_ok(*old(self).symbols, b),
        ensures
            Self::step(*old(self), *final(self), 30),
            Self::did(*old(self), *final(self), fix_inst(*old(self).symbols, old(self).offset, old(self).slots(), AsmInstruction::Cmp(t0, a, b))),
    {
        let ghost start = self.new@;
        let mut t = t0;
        let mut v1 = self.res_op(a);
        let mut v2 = self.res_op(b);
        let ghost gs = v1;
        let ghost gd = v2;
        if v1.is_large_64bit_imm() {
            let temp = get_reg(&AsmType::Quadword, Scratch::Source);
            self.push(AsmInstruction::Mov(AsmType::Quadword, v1, temp.duplicate()));
            v1 = temp;
            t = AsmType::Quadword;
        } else if v1.is_large_32bit_imm() && t == AsmType::Quadword {
            let temp = get_reg(&AsmType::Longword, Scratch::Source);
            self.push(AsmInstruction::Mov(AsmType::Longword, v1, temp));
            v1 = get_reg(&AsmType::Quadword, Scratch::Source);
            t = AsmType::Quadword;
        }
        if v2.is_imm() {
            let temp = get_reg(&t, Scratch::Dest);
            self.push(AsmInstruction::Mov(t, v2, temp.duplicate()));
            v2 = temp;
        }
        if t.is_double() && !v2.is_reg() {
            let temp = get_reg(&t, Scratch::Dest);
            self.push(AsmInstruction::Mov(t, v2, temp.duplicate()));
            v2 = temp;
        }
        if v1.is_memory() && v2.is_memory() {
            let temp = get_reg(&t, Scratch::Source);
            self.push(AsmInstruction::Mov(t, v1, temp.duplicate()));
            v1 = temp;
        }
        self.push(AsmInstruction::Cmp(t, v1, v2));
        assert(self.new@ =~= start + fixed_compare(t0, gs, gd));
        assert(self.new@.subrange(0, start.len() as int) =~= start);
    }

    fn fix_movzx(&mut self, src: Operand, dst: Operand)
        requires
            old(self).inv(),
            old(self).offset >= -1999999800,
            pseudo_ok(*old(self).symbols, src),
            pseudo_ok(*old(self).symbols, dst),
        ensures
            Self::step(*old(self), *final(self), 30),
            Self::did(*old(self), *final(self), fix_inst(*old(self).symbols, old(self).offset, old(self).slots(), AsmInstruction::MovZeroExtend(src, dst))),
    {
        let ghost start = self.new@;
        let s = self.res_op(src);
        let d = self.res_op(dst);
        let ghost gs = s;
        let ghost gd = d;
        if d.is_reg() {
            self.push(AsmInstruction::Mov(AsmType::Longword, s, d));
        } else if d.is_memory() {
            let temp = get_reg(&AsmType::Longword, Scratch::Dest);
            self.push(AsmInstruction::Mov(AsmType::Longword, s, temp));
            let temp = get_reg(&AsmType::Quadword, Scratch::Dest);
            self.push(AsmInstruction::Mov(AsmType::Quadword, temp, d));
        }
        assert(self.new@ =~= start + fixed_movzx(gs, gd));
        assert(self.new@.subrange(0, start.len() as int) =~= start);
    }

    fn fix_cvttsd2si(&mut self, t: AsmType, src: Operand, dst: Operand)
        requires
            old(self).inv(),
            old(self).offset >= -1999999800,
            pseudo_ok(*old(self).symbols, src),
            pseudo_ok(*old(self).symbols, dst),
        ensures
            Self::step(*old(self), *final(self), 30),
            Self::did(*old(self), *final(self), fix_inst(*old(self).symbols, old(self).offset, old(self).slots(), AsmInstruction::Cvttsd2si(t, src, dst))),
    {
        let ghost start = self.new@;
        let s = self.res_op(src);
        let d = self.res_op(dst);
        let ghost gs = s;
        let ghost gd = d;
        if !d.is_reg() {
            let temp = get_reg(&t, Scratch::Dest);
            self.push(AsmInstruction::Cvttsd2si(t, s, temp.duplicate()));
            self.push(AsmInstruction::Mov(t, temp, d));
        } else {
            self.push(AsmInstruction::Cvttsd2si(t, s, d));
        }
        assert(self.new@ =~= start + fixed_cvttsd2si(t, gs, gd));
        assert(self.new@.subrange(0, start.len() as int) =~= start);
    }

    fn fix_cvtsi2sd(&mut self, t: AsmType, src: Operand, dst: Operand)
        requires
            old(self).inv(),
            old(self).offset >= -1999999800,
            pseudo_ok(*old(self).symbols, src),
            pseudo_ok(*old(self).symbols, dst),
        ensures
            Self::step(*old(self), *final(self), 30),
            Self::did(*old(self), *final(self), fix_inst(*old(self).symbols, old(self).offset, old(self).slots(), AsmInstruction::Cvtsi2sd(t, src, dst))),
    {
        let ghost start = self.new@;
        let mut s = self.res_op(src);
        let d = self.res_op(dst);
        let ghost gs = s;
        let ghost gd = d;
        if s.is_imm() {
            let temp = get_reg(&t, Scratch::Source);
            self.push(AsmInstruction::Mov(t, s, temp.duplicate()));
            s = temp;
        }
        if !d.is_reg() {
            let temp = get_reg(&AsmType::Double, Scratch::Dest);
            self.push(AsmInstruction::Cvtsi2sd(t, s, temp.duplicate()));
            self.push(AsmInstruction::Mov(AsmType::Double, temp, d));
        } else {
            self.push(AsmInstruction::Cvtsi2sd(t, s, d));
        }
        assert(self.new@ =~= start + fixed_cvtsi2sd(t, gs, gd));
        assert(self.new@.subrange(0, start.len() as int) =~= start);
    }

    /// Appends the fixed form of `instruction`.
    fn assign_instruction_slots(&mut self, instruction: AsmInstruction)
        requires
            old(self).inv(),
            old(self).offset >= -1999999800,
            inst_pseudos_ok(*old(self).symbols, instruction),
        ensures
            Self::step(*old(self), *final(self), 30),
            Self::did(*old(self), *final(self), fix_inst(*old(self).symbols, old(self).offset, old(self).slots(), instruction)),
    {
        let ghost start = self.new@;
        let ghost inst = instruction;
        match instruction {
            AsmInstruction::Ret => {
                self.push(AsmInstruction::Ret);
                assert(self.new@ =~= start + seq![AsmInstruction::Ret]);
            },
            AsmInstruction::Mov(t, src, dst) => self.fix_mov(t, src, dst),
            AsmInstruction::Movsx(src, dst) => self.fix_movsx(src, dst),
            AsmInstruction::Unary(op, t, dst) => {
                let d = self.res_op(dst);
                let ghost gd = d;
                self.push(AsmInstruction::Unary(op, t, d));
                assert(self.new@ =~= start + seq![AsmInstruction::Unary(op, t, gd)]);
            },
            AsmInstruction::Binary(op, t, src, dst) => self.bin_handler(op, t, src, dst),
            AsmInstruction::Idiv(t, src) => self.fix_division(true, t, src),
            AsmInstruction::Div(t, src) => self.fix_division(false, t, src),
            AsmInstruction::Cmp(t, a, b) => self.fix_compare(t, a, b),
            AsmInstruction::SetCC(cond, dst) => {
                let d = self.res_op(dst);
                let ghost gd = d;
                self.push(AsmInstruction::SetCC(cond, d));
                assert(self.new@ =~= start + seq![AsmInstruction::SetCC(cond, gd)]);
            },
            AsmInstruction::Push(val) => {
                let v = self.res_op(val);
                let ghost gv = v;
                self.push(AsmInstruction::Push(v));
                assert(self.new@ =~= start + seq![AsmInstruction::Push(gv)]);
            },
            AsmInstruction::MovZeroExtend(src, dst) => self.fix_movzx(src, dst),
            AsmInstruction::Cvttsd2si(t, src, dst) => self.fix_cvttsd2si(t, src, dst),
            AsmInstruction::Cvtsi2sd(t, src, dst) => self.fix_cvtsi2sd(t, src, dst),
            other => {
                self.push(other);
                assert(self.new@ =~= start + seq![inst]);
            },
        }
        assert(self.new@.subrange(0, start.len() as int) =~= start);
    }

    /// Appends the fixed form of a binary instruction.
    fn bin_handler(&mut self, op: BinaryOp, t0: AsmType, src: Operand, dst: Operand)
        requires
            old(self).inv(),
            old(self).offset >= -1999999800,
            pseudo_ok(*old(self).symbols, src),
            pseudo_ok(*old(self).symbols, dst),
        ensures
            Self::step(*old(self), *final(self), 30),
            Self::did(*old(self), *final(self), fix_inst(*old(self).symbols, old(self).offset, old(self).slots(), AsmInstruction::Binary(op, t0, src, dst))),
    {
        let ghost start = self.new@;
        let mut t = t0;
        let mut s = self.res_op(src);
        let d = self.res_op(dst);
        let ghost gs = s;
        let ghost gd = d;
        match op {
            BinaryOp::Add | BinaryOp::Sub | BinaryOp::BitAnd | BinaryOp::BitOr | BinaryOp::BitXor => {
                if !t.is_double() {
                    if s.is_large_64bit_imm() {
                        let temp = get_reg(&AsmType::Quadword, Scratch::Source);
                        self.push(AsmInstruction::Mov(AsmType::Quadword, s, temp.duplicate()));
                        s = temp;
                        t = AsmType::Quadword;
                    } else if s.is_large_32bit_imm() && t == AsmType::Quadword {
                        let temp = get_reg(&AsmType::Longword, Scratch::Source);
                        self.push(AsmInstruction::Mov(AsmType::Longword, s, temp));
                        s = get_reg(&AsmType::Quadword, Scratch::Source);
                        t = AsmType::Quadword;
                    }
                    if s.is_memory() && d.is_memory() {
                        let temp = get_reg(&t, Scratch::Source);
                        self.push(AsmInstruction::Mov(t, s, temp.duplicate()));
                        s = temp;
                    }
                    self.push(AsmInstruction::Binary(op, t, s, d));
                } else {
                    if !d.is_reg() {
                        let temp = get_reg(&t, Scratch::Dest);
                        self.push(AsmInstruction::Mov(t, d.duplicate(), temp.duplicate()));
                        self.push(AsmInstruction::Binary(op, t, s, temp.duplicate()));
                        self.push(AsmInstruction::Mov(t, temp, d));
                    } else {
                        self.push(AsmInstruction::Binary(op, t, s, d));
                    }
                }
            },
            BinaryOp::DivDouble => {
                if !d.is_reg() {
                    let temp = get_reg(&t, Scratch::Dest);
                    self.push(AsmInstruction::Mov(t, d.duplicate(), temp.duplicate()));
                    self.push(AsmInstruction::Binary(op, t, s, temp.duplicate()));
                    self.push(AsmInstruction::Mov(t, temp, d));
                } else {
                    self.push(AsmInstruction::Binary(op, t, s, d));
                }
            },
            BinaryOp::Mult => {
                if !t.is_double() {
                    if s.is_large_64bit_imm() {
                        let temp = get_reg(&AsmType::Quadword, Scratch::Source);
                        self.push(AsmInstruction::Mov(AsmType::Quadword, s, temp.duplicate()));
                        s = temp;
                        t = AsmType::Quadword;
                    } else if s.is_large_32bit_imm() && t == AsmType::Quadword {
                        let temp = get_reg(&AsmType::Longword, Scratch::Source);
                        self.push(AsmInstruction::Mov(AsmType::Longword, s, temp));
                        s = get_reg(&AsmType::Quadword, Scratch::Source);
                        t = AsmType::Quadword;
                    }
                }
                if !d.is_reg() {
                    let temp = get_reg(&t, Scratch::Dest);
                    self.push(AsmInstruction::Mov(t, d.duplicate(), temp.duplicate()));
                    self.push(AsmInstruction::Binary(op, t, s, temp.duplicate()));
                    self.push(AsmInstruction::Mov(t, temp, d));
                } else {
                    self.push(AsmInstruction::Binary(op, t, s, d));
                }
            },
            _ => {
                self.push(AsmInstruction::Binary(op, t, s, d));
            },
        }
        assert(self.new@ =~= start + fixed_binary(op, t0, gs, gd));
        assert(self.new@.subrange(0, start.len() as int) =~= start);
    }

    /// Fixes every instruction of the function and allocates its frame: the
    /// result starts by lowering `rsp` by the frame size, a multiple of 16
    /// that holds every slot handed out.
    fn assign_slots(&mut self) -> (r: AsmFunction)
        requires
            old(self).inv(),
            old(self).offset == 0,
            old(self).new@.len() == 0,
            old(self).old.body@.len() <= 60000000,
            forall|i: int| 0 <= i < old(self).old.body@.len() ==> inst_pseudos_ok(*old(self).symbols, #[trigger] old(self).old.body@[i]),
        ensures
            r.identifier == old(self).old.identifier,
            r.global == old(self).old.global,
            r.body@.len() >= 1,
            r.body@[0] == AsmInstruction::Binary(
                BinaryOp::Sub,
                AsmType::Quadword,
                Operand::Imm(frame_size(final(self).offset) as i64),
                Operand::Reg(Register::SP, RegSize::Quad),
            ),
            frame_size(final(self).offset) % 16 == 0,
            forall|n: Seq<char>| #[trigger] final(self).offset_map.spec_get(n) matches Some(k)
                ==> -frame_size(final(self).offset) <= k < 0,
            forall|i: int| 0 <= i < r.body@.len() ==> legal(#[trigger] r.body@[i]),
            r.body@ == framed_body(*old(self).symbols, old(self).old.body@),
    {
        let mut i: usize = 0;
        proof {
            assert(self.old.body@.take(0) =~= Seq::<AsmInstruction>::empty());
            assert(self.new@ =~= Seq::<AsmInstruction>::empty());
        }
        while i < self.old.body.len()
            invariant
                self.inv(),
                i <= self.old.body@.len(),
                self.old == old(self).old,
                self.symbols == old(self).symbols,
                self.old.body@.len() <= 60000000,
                self.offset >= -30 * i,
                forall|j: int| 0 <= j < self.old.body@.len() ==> inst_pseudos_ok(*self.symbols, #[trigger] self.old.body@[j]),
                ({
                    let f = fix_body(*self.symbols, self.old.body@.take(i as int));
                    self.new@ == f.0 && self.offset == f.1 && self.slots() == f.2
                }),
            decreases self.old.body@.len() - i,
        {
            let instruction = self.old.body[i].duplicate();
            proof {
                let pre = self.old.body@.take(i + 1);
                assert(pre.drop_last() =~= self.old.body@.take(i as int));
                assert(pre.last() == instruction);
            }
            self.assign_instruction_slots(instruction);
            i = i + 1;
        }
        assert(self.old.body@.take(i as int) =~= self.old.body@);
        let frame = (15 - self.offset) / 16 * 16;
        proof {
            lemma_frame_size(self.offset);
        }
        let ghost fixed = self.new@;
        let mut body: Vec<AsmInstruction> = Vec::new();
        std::mem::swap(&mut body, &mut self.new);
        body.insert(
            0,
            AsmInstruction::Binary(BinaryOp::Sub, AsmType::Quadword, Operand::Imm(frame as i64), Operand::Reg(Register::SP, RegSize::Quad)),
        );
        assert(body@ =~= framed_body(*self.symbols, self.old.body@));
        assert forall|i: int| 0 <= i < body@.len() implies legal(#[trigger] body@[i]) by {
            if i > 0 {
                assert(body@[i] == fixed[i - 1]);
            }
        }
        AsmFunction { identifier: self.old.identifier.clone(), global: self.old.global, body }
    }
}

} // verus!
