use vstd::prelude::*;

use crate::codegen::asm_ast::{AsmType, Statics};
use crate::codegen::{FuncGen, func_ok, has_const_prefix, inst_ok, inst_weight, insts_weight, table_ok, top_ok, val_ok};
use crate::codegen::asm_symtab::convertible;
use crate::poise::ready::{capped, sat_add};
use crate::poise::{PoiseBinaryOp, PoiseFunc, PoiseInstruction, PoiseProg, PoiseVal, TopLevelItem, TopLevelItemV};
use crate::text::chars_of;
use crate::types::{IdentAttrs, SymbolTable, Type};

verus! {

broadcast use vstd::std_specs::vec::group_vec_axioms, vstd::seq::group_seq_axioms;

/// Whether `v` is a constant or names an object of arithmetic type.
fn val_ready(v: &PoiseVal, syms: &SymbolTable) -> (r: bool)
    ensures
        r == val_ok(*syms, v@),
{
    match v {
        PoiseVal::Constant(_) => true,
        PoiseVal::Variable(n) => match syms.get(n) {
            Some(s) => s.datatype.is_arithmetic(),
            None => false,
        },
    }
}

/// Whether code generation handles the instruction `i` (see [`inst_ok`]).
fn inst_ready(g: &FuncGen, i: &PoiseInstruction) -> (r: bool)
    ensures
        r == inst_ok(g.syms(), i@),
{
    let syms = g.symbols;
    match i {
        PoiseInstruction::Return(v) => val_ready(v, syms),
        PoiseInstruction::Unary { src, dst, .. } => val_ready(src, syms) && val_ready(dst, syms),
        PoiseInstruction::Binary { op, src1, src2, dst } => {
            if !(val_ready(src1, syms) && val_ready(src2, syms) && val_ready(dst, syms)) {
                return false;
            }
            !(matches!(op, PoiseBinaryOp::Remainder) && g.is_double(src1))
        },
        PoiseInstruction::JumpIfZero { condition, .. } => val_ready(condition, syms),
        PoiseInstruction::JumpIfNotZero { condition, .. } => val_ready(condition, syms),
        PoiseInstruction::FunctionCall { args, dst, .. } => {
            if !val_ready(dst, syms) || args.len() >= 0x800_0000 {
                return false;
            }
            let ghost av = crate::poise::vals_view(args@);
            assert(inst_ok(g.syms(), i@) == (forall|j: int| 0 <= j < args@.len() ==> val_ok(*syms, #[trigger] av[j])));
            let mut k: usize = 0;
            while k < args.len()
                invariant
                    k <= args@.len(),
                    av == crate::poise::vals_view(args@),
                    g.syms() == *syms,
                    inst_ok(g.syms(), i@) == (forall|j: int| 0 <= j < args@.len() ==> val_ok(*syms, #[trigger] av[j])),
                    forall|j: int| 0 <= j < k ==> val_ok(*syms, #[trigger] av[j]),
                decreases args@.len() - k,
            {
                assert(av[k as int] == args@[k as int]@);
                if !val_ready(&args[k], syms) {
                    return false;
                }
                k = k + 1;
            }
            true
        },
        PoiseInstruction::UIntToDouble { src, dst } => {
            if !(val_ready(src, syms) && val_ready(dst, syms)) {
                return false;
            }
            let t = g.get_asmtype(src);
            t == AsmType::Longword || t == AsmType::Quadword
        },
        PoiseInstruction::DoubleToUInt { src, dst } => {
            if !(val_ready(src, syms) && val_ready(dst, syms)) {
                return false;
            }
            let t = g.get_asmtype(dst);
            t == AsmType::Longword || t == AsmType::Quadword
        },
        PoiseInstruction::SignExtend { src, dst } => val_ready(src, syms) && val_ready(dst, syms),
        PoiseInstruction::Truncate { src, dst } => val_ready(src, syms) && val_ready(dst, syms),
        PoiseInstruction::ZeroExtend { src, dst } => val_ready(src, syms) && val_ready(dst, syms),
        PoiseInstruction::IntToDouble { src, dst } => val_ready(src, syms) && val_ready(dst, syms),
        PoiseInstruction::DoubleToInt { src, dst } => val_ready(src, syms) && val_ready(dst, syms),
        PoiseInstruction::Copy { src, dst } => val_ready(src, syms) && val_ready(dst, syms),
        _ => true,
    }
}

/// Whether code generation handles the function `f` (see [`top_ok`]).
fn func_ready(f: &PoiseFunc, syms: &SymbolTable) -> (r: bool)
    ensures
        r == top_ok(*syms, TopLevelItemV::F(f@)),
{
    let g = FuncGen { ident: String::new(), generated: Vec::new(), statics: Statics::new(), symbols: syms, count: 0 };
    let ghost fv = f@;
    if f.params.len() >= 0x800_0000 || f.body.len() > usize::MAX / 2 {
        return false;
    }
    let mut k: usize = 0;
    while k < f.params.len()
        invariant
            k <= f.params@.len(),
            fv == f@,
            forall|j: int| 0 <= j < k ==> val_ok(*syms, crate::poise::PValV::Variable(#[trigger] fv.params[j])),
        decreases f.params@.len() - k,
    {
        let v = PoiseVal::Variable(f.params[k].clone());
        assert(v@ == crate::poise::PValV::Variable(fv.params[k as int]));
        if !val_ready(&v, syms) {
            assert(!func_ok(*syms, fv));
            return false;
        }
        k = k + 1;
    }
    let mut acc: u64 = f.params.len() as u64;
    let mut i: usize = 0;
    assert(fv.body.take(0) =~= Seq::<crate::poise::PInstV>::empty());
    while i < f.body.len()
        invariant
            i <= f.body@.len(),
            fv == f@,
            g.syms() == *syms,
            fv.params.len() < 0x800_0000,
            forall|j: int| 0 <= j < fv.params.len() ==> val_ok(*syms, crate::poise::PValV::Variable(#[trigger] fv.params[j])),
            forall|j: int| 0 <= j < i ==> inst_ok(*syms, #[trigger] fv.body[j]),
            acc == capped((fv.params.len() + insts_weight(fv.body.take(i as int))) as int),
        decreases f.body@.len() - i,
    {
        let inst = &f.body[i];
        assert(fv.body[i as int] == inst@);
        if !inst_ready(&g, inst) {
            return false;
        }
        let w: u64 = match inst {
            PoiseInstruction::FunctionCall { args, .. } => {
                assert(args@.len() < 0x800_0000);
                4 + 2 * (args.len() as u64)
            },
            _ => 13,
        };
        proof {
            let pre = fv.body.take(i + 1);
            assert(pre.drop_last() =~= fv.body.take(i as int));
            assert(pre.last() == fv.body[i as int]);
            assert(w == inst_weight(fv.body[i as int]));
        }
        acc = sat_add(acc, w);
        i = i + 1;
    }
    assert(fv.body.take(i as int) =~= fv.body);
    acc <= 60000000
}

/// Whether `n` is named like an interned constant.
fn const_named(n: &String) -> (r: bool)
    ensures
        r == has_const_prefix(n@),
{
    let cs = chars_of(n);
    if cs.len() < 12 {
        return false;
    }
    let pat = ['.', 'L', '.', 'c', 'o', 'n', 's', 't', 'a', 'n', 't', '.'];
    let ghost ps = seq!['.', 'L', '.', 'c', 'o', 'n', 's', 't', 'a', 'n', 't', '.'];
    assert(pat@ =~= ps);
    let mut i: usize = 0;
    while i < 12
        invariant
            i <= 12,
            cs@ == n@,
            cs@.len() >= 12,
            pat@ == ps,
            ps == seq!['.', 'L', '.', 'c', 'o', 'n', 's', 't', 'a', 'n', 't', '.'],
            forall|j: int| 0 <= j < i ==> cs@[j] == ps[j],
        decreases 12 - i,
    {
        if cs[i] != pat[i] {
            assert(cs@.subrange(0, 12)[i as int] != ps[i as int]);
            return false;
        }
        i = i + 1;
    }
    assert(cs@.subrange(0, 12) =~= ps);
    true
}

/// Whether code generation can use the table `syms` (see [`table_ok`]).
fn table_ready(syms: &SymbolTable) -> (r: bool)
    ensures
        r == table_ok(*syms),
{
    let ghost ps = syms.pairs();
    let n = syms.len();
    let mut i: usize = 0;
    while i < n
        invariant
            i <= n,
            n == ps.len(),
            ps == syms.pairs(),
            forall|a: int| 0 <= a < i ==> convertible(#[trigger] ps[a].1),
            forall|a: int| 0 <= a < i ==> (#[trigger] ps[a]).1.ident == ps[a].0,
            forall|a: int| 0 <= a < i ==> !has_const_prefix(#[trigger] ps[a].0),
            forall|a: int, b: int| 0 <= a < i && a < b < ps.len() ==> (#[trigger] ps[a]).0 != (#[trigger] ps[b]).0,
        decreases n - i,
    {
        let name = syms.name_at(i);
        let sym = syms.symbol_at(i);
        let conv = match &sym.datatype {
            Type::FuncType { .. } => matches!(sym.attrs, IdentAttrs::FuncAttr { .. }),
            _ => sym.datatype.is_arithmetic(),
        };
        if !conv || sym.ident != *name || const_named(name) {
            return false;
        }
        let mut j: usize = i + 1;
        while j < n
            invariant
                i < n,
                i + 1 <= j <= n,
                n == ps.len(),
                ps == syms.pairs(),
                name@ == ps[i as int].0,
                forall|b: int| i < b < j ==> ps[i as int].0 != (#[trigger] ps[b]).0,
            decreases n - j,
        {
            if *syms.name_at(j) == *name {
                return false;
            }
            j = j + 1;
        }
        i = i + 1;
    }
    true
}

/// Whether [`gen_program`](crate::codegen::gen_program) handles `tree` with
/// the table `symbols`.
pub fn codegen_ready(tree: &PoiseProg, symbols: &SymbolTable) -> (r: bool)
    ensures
        r == (table_ok(*symbols) && forall|k: int| 0 <= k < tree.top_level_items@.len() ==> top_ok(
            *symbols,
            (#[trigger] tree.top_level_items@[k])@,
        )),
{
    if !table_ready(symbols) {
        return false;
    }
    let items = &tree.top_level_items;
    let mut k: usize = 0;
    while k < items.len()
        invariant
            k <= items@.len(),
            items == &tree.top_level_items,
            table_ok(*symbols),
            forall|j: int| 0 <= j < k ==> top_ok(*symbols, (#[trigger] items@[j])@),
        decreases items@.len() - k,
    {
        let ok = match &items[k] {
            TopLevelItem::F(f) => func_ready(f, symbols),
            TopLevelItem::V(v) => v.datatype.is_arithmetic(),
        };
        if !ok {
            return false;
        }
        k = k + 1;
    }
    true
}

} // verus!
