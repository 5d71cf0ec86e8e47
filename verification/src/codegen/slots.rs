use vstd::prelude::*;

use crate::codegen::asm_ast::{AsmInstruction, AsmType, Operand, spec_alignment};
use crate::codegen::asm_symtab::{AsmSymbol, AsmSymbolTable};
use crate::codegen::stack::{
    Slots, fix_body, fix_inst, frame_size, inst_pseudos_ok, legal, no_pseudo, lemma_frame_size, lemma_new_slot, new_slot, pseudo_ok, rop,
    spec_size,
};

verus! {

/// A new slot is aligned for its type.
proof fn lemma_new_slot_aligned(offset: i32, t: AsmType)
    requires
        offset >= -2000000000,
        offset <= 0,
    ensures
        (new_slot(offset, t) as int) % spec_alignment(t) == 0,
{
    let x = (offset - spec_size(t)) as i32;
    match t {
        AsmType::Byte => {},
        AsmType::Longword => {
            assert((x & !3i32) & 3i32 == 0i32) by (bit_vector);
            let k = x & !3i32;
            assert(k & 3i32 == 0i32 ==> (k as int) % 4 == 0) by (bit_vector);
        },
        _ => {
            assert((x & !7i32) & 7i32 == 0i32) by (bit_vector);
            let k = x & !7i32;
            assert(k & 7i32 == 0i32 ==> (k as int) % 8 == 0) by (bit_vector);
        },
    }
}

/// The size of the object `p` names, where the table has one.
pub open spec fn obj_size(syms: AsmSymbolTable, p: Seq<char>) -> int {
    match syms.spec_get(p) {
        Some(AsmSymbol::ObjEntry(t, _, _)) => spec_size(t),
        _ => 0,
    }
}

/// The slot `k` of `p` belongs to a non-static object of the table, is
/// aligned for its type and lies between `off` and the frame base.
pub open spec fn slot_fits(syms: AsmSymbolTable, off: i32, p: Seq<char>, k: i32) -> bool {
    syms.spec_get(p) matches Some(AsmSymbol::ObjEntry(t, false, _)) && off <= k && (k as int) % spec_alignment(t) == 0
        && k + spec_size(t) <= 0
}

/// Every slot handed out fits, and the slots of distinct names do not overlap.
pub open spec fn slots_sound(syms: AsmSymbolTable, off: i32, sl: Slots) -> bool {
    &&& forall|p: Seq<char>| #[trigger] sl(p) is Some ==> slot_fits(syms, off, p, sl(p)->0)
    &&& forall|p: Seq<char>, q: Seq<char>|
        p != q && #[trigger] sl(p) is Some && #[trigger] sl(q) is Some ==> sl(p)->0 + obj_size(syms, p) <= sl(q)->0
            || sl(q)->0 + obj_size(syms, q) <= sl(p)->0
}

/// `after` keeps every slot of `before`.
pub open spec fn slots_kept(before: Slots, after: Slots) -> bool {
    forall|p: Seq<char>| #[trigger] before(p) is Some ==> after(p) == before(p)
}

/// Replacing an operand keeps the slots sound and kept, lowers the offset
/// by at most 15, and puts a non-static object in its own slot.
pub proof fn lemma_rop_slots(syms: AsmSymbolTable, off: i32, sl: Slots, op: Operand)
    requires
        -1999999985 <= off <= 0,
        slots_sound(syms, off, sl),
        pseudo_ok(syms, op),
    ensures
        ({
            let (o, off2, sl2) = rop(syms, off, sl, op);
            &&& slots_sound(syms, off2, sl2)
            &&& off - 15 <= off2 <= off
            &&& slots_kept(sl, sl2)
            &&& (op matches Operand::Pseudo(id) ==> (syms.spec_get(id@) matches Some(AsmSymbol::ObjEntry(_, false, _)) ==> (
            sl2(id@) is Some && o == Operand::Stack(sl2(id@)->0))))
        }),
{
    match op {
        Operand::Pseudo(id) => match syms.spec_get(id@) {
            Some(AsmSymbol::ObjEntry(t, false, _)) => match sl(id@) {
                Some(k) => {},
                None => {
                    let k = new_slot(off, t);
                    lemma_new_slot(off, t);
                    lemma_new_slot_aligned(off, t);
                    let sl2 = rop(syms, off, sl, op).2;
                    assert forall|p: Seq<char>| #[trigger] sl2(p) is Some implies slot_fits(syms, k, p, sl2(p)->0) by {
                        if p != id@ {
                            assert(slot_fits(syms, off, p, sl(p)->0));
                        }
                    }
                    assert forall|p: Seq<char>, q: Seq<char>|
                        p != q && #[trigger] sl2(p) is Some && #[trigger] sl2(q) is Some implies sl2(p)->0 + obj_size(syms, p)
                        <= sl2(q)->0 || sl2(q)->0 + obj_size(syms, q) <= sl2(p)->0 by {
                        if p == id@ {
                            assert(slot_fits(syms, off, q, sl(q)->0));
                        } else if q == id@ {
                            assert(slot_fits(syms, off, p, sl(p)->0));
                        } else {
                            assert(sl(p) is Some && sl(q) is Some);
                        }
                    }
                },
            },
            _ => {},
        },
        _ => {},
    }
}

/// Fixing one instruction keeps the slots sound and kept and lowers the
/// offset by at most 30.
pub proof fn lemma_fix_inst_slots(syms: AsmSymbolTable, off: i32, sl: Slots, inst: AsmInstruction)
    requires
        -1999999970 <= off <= 0,
        slots_sound(syms, off, sl),
        inst_pseudos_ok(syms, inst),
    ensures
        ({
            let (o, off2, sl2) = fix_inst(syms, off, sl, inst);
            &&& slots_sound(syms, off2, sl2)
            &&& off - 30 <= off2 <= off
            &&& slots_kept(sl, sl2)
        }),
{
    match inst {
        AsmInstruction::Mov(_, a, b) | AsmInstruction::Movsx(a, b) | AsmInstruction::Binary(_, _, a, b)
        | AsmInstruction::Cmp(_, a, b) | AsmInstruction::MovZeroExtend(a, b) | AsmInstruction::Cvttsd2si(_, a, b)
        | AsmInstruction::Cvtsi2sd(_, a, b) => {
            lemma_rop_slots(syms, off, sl, a);
            let (_, o1, l1) = rop(syms, off, sl, a);
            lemma_rop_slots(syms, o1, l1, b);
        },
        AsmInstruction::Unary(_, _, a) | AsmInstruction::Idiv(_, a) | AsmInstruction::Div(_, a)
        | AsmInstruction::SetCC(_, a) | AsmInstruction::Push(a) => {
            lemma_rop_slots(syms, off, sl, a);
        },
        _ => {},
    }
}

/// Fixing a body hands out sound slots, lowering the offset by at most 30
/// per instruction, and a slot once handed out stays.
pub proof fn lemma_fix_body_slots(syms: AsmSymbolTable, body: Seq<AsmInstruction>)
    requires
        body.len() <= 60000000,
        forall|i: int| 0 <= i < body.len() ==> inst_pseudos_ok(syms, #[trigger] body[i]),
    ensures
        ({
            let (o, off, sl) = fix_body(syms, body);
            &&& slots_sound(syms, off, sl)
            &&& -30 * body.len() <= off <= 0
            &&& forall|i: int| 0 <= i <= body.len() ==> slots_kept(#[trigger] fix_body(syms, body.take(i)).2, sl)
        }),
    decreases body.len(),
{
    if body.len() == 0 {
        assert(body.take(0) =~= body);
    } else {
        let pre = body.drop_last();
        assert forall|i: int| 0 <= i < pre.len() implies inst_pseudos_ok(syms, #[trigger] pre[i]) by {
            assert(pre[i] == body[i]);
        }
        lemma_fix_body_slots(syms, pre);
        let (o, off, sl) = fix_body(syms, pre);
        lemma_fix_inst_slots(syms, off, sl, body.last());
        let sl2 = fix_body(syms, body).2;
        assert forall|i: int| 0 <= i <= body.len() implies slots_kept(#[trigger] fix_body(syms, body.take(i)).2, sl2) by {
            if i < body.len() {
                assert(body.take(i) =~= pre.take(i));
            } else {
                assert(body.take(i) =~= body);
            }
        }
    }
}

/// How fixing `body` lays out its stack slots: the frame is a multiple of
/// 16; each non-static object named in the body gets one slot, aligned for
/// its type, inside the frame and ending at or below its base, apart from
/// the slot of every other name; and a slot, once handed out, stays to the
/// end (so every operand naming the object becomes that one slot, see
/// [`lemma_rop_slots`]).
pub open spec fn slots_laid_out(syms: AsmSymbolTable, body: Seq<AsmInstruction>) -> bool {
    let (o, off, sl) = fix_body(syms, body);
    &&& frame_size(off) % 16 == 0
    &&& forall|p: Seq<char>| #[trigger] sl(p) is Some ==> slot_fits(syms, off, p, sl(p)->0) && -frame_size(off) <= sl(p)->0
    &&& forall|p: Seq<char>, q: Seq<char>|
        p != q && #[trigger] sl(p) is Some && #[trigger] sl(q) is Some ==> sl(p)->0 + obj_size(syms, p) <= sl(q)->0
            || sl(q)->0 + obj_size(syms, q) <= sl(p)->0
    &&& forall|i: int| 0 <= i <= body.len() ==> slots_kept(#[trigger] fix_body(syms, body.take(i)).2, sl)
}

/// Stack-slot assignment gives each non-static object named in a body one
/// slot, kept from the instruction that first names it to the end: a slot
/// aligned for the object's type, inside the frame, and apart from the
/// slot of every other name. The frame is a multiple of 16.
pub proof fn lemma_stack_slots_sound(syms: AsmSymbolTable, body: Seq<AsmInstruction>)
    requires
        body.len() <= 60000000,
        forall|i: int| 0 <= i < body.len() ==> inst_pseudos_ok(syms, #[trigger] body[i]),
    ensures
        slots_laid_out(syms, body),
{
    lemma_fix_body_slots(syms, body);
    let (o, off, sl) = fix_body(syms, body);
    lemma_frame_size(off);
}


/// A replaced operand holds no pseudo-register.
proof fn lemma_rop_no_pseudo(syms: AsmSymbolTable, off: i32, sl: Slots, op: Operand)
    requires
        pseudo_ok(syms, op),
    ensures
        no_pseudo(rop(syms, off, sl, op).0),
{
}

/// Every instruction that fixing one instruction emits is legal: no
/// pseudo-register is left, no move, comparison or addition reads and
/// writes memory at once, no comparison or division takes an immediate
/// where x86-64 refuses one, and sign extensions and conversions write a
/// register, and a zero extension becomes plain moves.
#[verifier::rlimit(40)]
pub proof fn lemma_fix_inst_legal(syms: AsmSymbolTable, off: i32, sl: Slots, inst: AsmInstruction)
    requires
        inst_pseudos_ok(syms, inst),
    ensures
        forall|i: int| 0 <= i < fix_inst(syms, off, sl, inst).0.len() ==> legal(#[trigger] fix_inst(syms, off, sl, inst).0[i]),
{
    match inst {
        AsmInstruction::Mov(_, a, b) => {
            lemma_rop_no_pseudo(syms, off, sl, a);
            let (_, o1, l1) = rop(syms, off, sl, a);
            lemma_rop_no_pseudo(syms, o1, l1, b);
        },
        AsmInstruction::Movsx(a, b) => {
            lemma_rop_no_pseudo(syms, off, sl, a);
            let (_, o1, l1) = rop(syms, off, sl, a);
            lemma_rop_no_pseudo(syms, o1, l1, b);
        },
        AsmInstruction::Binary(_, _, a, b) => {
            lemma_rop_no_pseudo(syms, off, sl, a);
            let (_, o1, l1) = rop(syms, off, sl, a);
            lemma_rop_no_pseudo(syms, o1, l1, b);
        },
        AsmInstruction::Cmp(_, a, b) => {
            lemma_rop_no_pseudo(syms, off, sl, a);
            let (_, o1, l1) = rop(syms, off, sl, a);
            lemma_rop_no_pseudo(syms, o1, l1, b);
        },
        AsmInstruction::Cvttsd2si(_, a, b) => {
            lemma_rop_no_pseudo(syms, off, sl, a);
            let (_, o1, l1) = rop(syms, off, sl, a);
            lemma_rop_no_pseudo(syms, o1, l1, b);
        },
        AsmInstruction::Cvtsi2sd(_, a, b) => {
            lemma_rop_no_pseudo(syms, off, sl, a);
            let (_, o1, l1) = rop(syms, off, sl, a);
            lemma_rop_no_pseudo(syms, o1, l1, b);
        },
        AsmInstruction::MovZeroExtend(a, b) => {
            lemma_rop_no_pseudo(syms, off, sl, a);
            let (_, o1, l1) = rop(syms, off, sl, a);
            lemma_rop_no_pseudo(syms, o1, l1, b);
        },
        AsmInstruction::Unary(_, _, a) => lemma_rop_no_pseudo(syms, off, sl, a),
        AsmInstruction::Idiv(_, a) => lemma_rop_no_pseudo(syms, off, sl, a),
        AsmInstruction::Div(_, a) => lemma_rop_no_pseudo(syms, off, sl, a),
        AsmInstruction::SetCC(_, a) => lemma_rop_no_pseudo(syms, off, sl, a),
        AsmInstruction::Push(a) => lemma_rop_no_pseudo(syms, off, sl, a),
        _ => {},
    }
}

} // verus!
