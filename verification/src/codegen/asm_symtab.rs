use vstd::prelude::*;

use crate::codegen::asm_ast::{AsmTopLevel, AsmType};
use crate::namemap::NameMap;
use crate::types::{IdentAttrs, IdentAttrsV, Symbol, SymbolTable, SymbolV, Type, TypeV};

verus! {

broadcast use vstd::std_specs::vec::group_vec_axioms, vstd::seq::group_seq_axioms;

/// What code generation knows of a name: an object's type, whether it is
/// static, and whether it is a read-only constant; or whether a function is
/// defined here.
#[derive(Debug, Clone, Copy, PartialEq, Eq, Structural)]
pub enum AsmSymbol {
    ObjEntry(AsmType, bool, bool),
    FuncEntry(bool),
}

pub type AsmSymbolTable = NameMap<AsmSymbol>;

/// The assembly type of an arithmetic C type.
pub open spec fn spec_convert_type(t: TypeV) -> AsmType {
    match t {
        TypeV::Int | TypeV::UInt => AsmType::Longword,
        TypeV::Double => AsmType::Double,
        _ => AsmType::Quadword,
    }
}

pub fn convert_type(dtype: &Type) -> (r: AsmType)
    requires
        dtype@.spec_is_arithmetic(),
    ensures
        r == spec_convert_type(dtype@),
{
    match dtype {
        Type::Int => AsmType::Longword,
        Type::Long => AsmType::Quadword,
        Type::UInt => AsmType::Longword,
        Type::ULong => AsmType::Quadword,
        _ => AsmType::Double,
    }
}

/// The symbols code generation can convert: functions carry function
/// attributes, everything else has an arithmetic type.
pub open spec fn convertible(s: SymbolV) -> bool {
    if s.datatype is FuncType {
        s.attrs is FuncAttr
    } else {
        s.datatype.spec_is_arithmetic()
    }
}

pub open spec fn spec_convert_symbol(s: SymbolV) -> AsmSymbol {
    if s.datatype is FuncType {
        AsmSymbol::FuncEntry(s.attrs->FuncAttr_defined)
    } else {
        AsmSymbol::ObjEntry(spec_convert_type(s.datatype), s.attrs is StaticAttr, false)
    }
}

fn convert_symbol(symbol: &Symbol) -> (r: AsmSymbol)
    requires
        convertible(symbol@),
    ensures
        r == spec_convert_symbol(symbol@),
{
    match &symbol.datatype {
        Type::FuncType { .. } => {
            match &symbol.attrs {
                IdentAttrs::FuncAttr { defined, .. } => AsmSymbol::FuncEntry(*defined),
                _ => vstd::pervasive::unreached(),
            }
        },
        other => {
            let asmtype = convert_type(other);
            if let IdentAttrs::StaticAttr { .. } = &symbol.attrs {
                AsmSymbol::ObjEntry(asmtype, true, false)
            } else {
                AsmSymbol::ObjEntry(asmtype, false, false)
            }
        },
    }
}

/// The value of the last pair in `s` that has `name`.
pub open spec fn last_value(s: Seq<(Seq<char>, AsmSymbol)>, name: Seq<char>) -> Option<AsmSymbol>
    decreases s.len(),
{
    if s.len() == 0 {
        None
    } else if s.last().0 == name {
        Some(s.last().1)
    } else {
        last_value(s.drop_last(), name)
    }
}

/// What `convert_symtable` records, in order: each symbol under its name,
/// then each constant as a static read-only `double`.
pub open spec fn symtable_records(symbols: Seq<SymbolV>, constants: Seq<AsmTopLevel>) -> Seq<(Seq<char>, AsmSymbol)> {
    symbols.map_values(|s: SymbolV| (s.ident, spec_convert_symbol(s)))
        + constants.map_values(|c: AsmTopLevel| (c->C_0.identifier@, AsmSymbol::ObjEntry(AsmType::Double, true, true)))
}

/// Records the code-generation view of every symbol and constant.
pub fn convert_symtable(symbols: &SymbolTable, asm_symbols: &mut AsmSymbolTable, constants: &Vec<AsmTopLevel>)
    requires
        forall|i: int| 0 <= i < symbols.spec_len() ==> convertible(#[trigger] symbols.pairs()[i].1),
        forall|i: int| 0 <= i < constants@.len() ==> #[trigger] constants@[i] is C,
    ensures
        forall|n: Seq<char>| #[trigger] final(asm_symbols).spec_get(n) == match last_value(
            symtable_records(symbols.pairs().map_values(|p: (Seq<char>, SymbolV)| p.1), constants@),
            n,
        ) {
            Some(v) => Some(v),
            None => old(asm_symbols).spec_get(n),
        },
{
    let ghost syms = symbols.pairs().map_values(|p: (Seq<char>, SymbolV)| p.1);
    let ghost recs = symtable_records(syms, constants@);
    let ghost done: Seq<(Seq<char>, AsmSymbol)> = Seq::empty();
    let mut i: usize = 0;
    while i < symbols.len()
        invariant
            i <= symbols.spec_len(),
            syms.len() == symbols.spec_len(),
            forall|j: int| 0 <= j < symbols.spec_len() ==> convertible(#[trigger] symbols.pairs()[j].1),
            syms == symbols.pairs().map_values(|p: (Seq<char>, SymbolV)| p.1),
            recs == symtable_records(syms, constants@),
            done == recs.subrange(0, i as int),
            forall|n: Seq<char>| #[trigger] asm_symbols.spec_get(n) == match last_value(done, n) {
                Some(v) => Some(v),
                None => old(asm_symbols).spec_get(n),
            },
        decreases symbols.spec_len() - i,
    {
        let sym = symbols.symbol_at(i);
        let entry = convert_symbol(sym);
        let ghost e = (sym.ident@, entry);
        assert(recs[i as int] == e);
        asm_symbols.insert(sym.ident.clone(), entry);
        proof {
            assert(recs.subrange(0, i + 1) =~= done.push(e));
            assert(done.push(e).drop_last() =~= done);
            done = done.push(e);
        }
        i = i + 1;
    }
    let mut k: usize = 0;
    while k < constants.len()
        invariant
            k <= constants@.len(),
            i == syms.len(),
            forall|j: int| 0 <= j < constants@.len() ==> #[trigger] constants@[j] is C,
            recs == symtable_records(syms, constants@),
            recs.len() == syms.len() + constants@.len(),
            done == recs.subrange(0, syms.len() + k),
            forall|n: Seq<char>| #[trigger] asm_symbols.spec_get(n) == match last_value(done, n) {
                Some(v) => Some(v),
                None => old(asm_symbols).spec_get(n),
            },
        decreases constants@.len() - k,
    {
        let identifier = match &constants[k] {
            AsmTopLevel::C(constant) => constant.identifier.clone(),
            _ => vstd::pervasive::unreached(),
        };
        let entry = AsmSymbol::ObjEntry(AsmType::Double, true, true);
        let ghost e = (identifier@, entry);
        assert(recs[syms.len() + k] == e);
        asm_symbols.insert(identifier, entry);
        proof {
            assert(recs.subrange(0, syms.len() + k + 1) =~= done.push(e));
            assert(done.push(e).drop_last() =~= done);
            done = done.push(e);
        }
        k = k + 1;
    }
    assert(done =~= recs);
}


/// Pairs appended without `name` leave its last value unchanged.
pub proof fn lemma_last_value_skip(a: Seq<(Seq<char>, AsmSymbol)>, b: Seq<(Seq<char>, AsmSymbol)>, name: Seq<char>)
    requires
        forall|k: int| 0 <= k < b.len() ==> (#[trigger] b[k]).0 != name,
    ensures
        last_value(a + b, name) == last_value(a, name),
    decreases b.len(),
{
    if b.len() > 0 {
        assert((a + b).drop_last() =~= a + b.drop_last());
        assert((a + b).last() == b[b.len() - 1]);
        lemma_last_value_skip(a, b.drop_last(), name);
    } else {
        assert(a + b =~= a);
    }
}

/// The last value of a name that only the `i`-th pair has is that pair's.
pub proof fn lemma_last_value_unique(a: Seq<(Seq<char>, AsmSymbol)>, name: Seq<char>, i: int)
    requires
        0 <= i < a.len(),
        a[i].0 == name,
        forall|j: int| 0 <= j < a.len() && j != i ==> (#[trigger] a[j]).0 != name,
    ensures
        last_value(a, name) == Some(a[i].1),
    decreases a.len(),
{
    if i < a.len() - 1 {
        assert(a.last() == a[a.len() - 1]);
        assert forall|j: int| 0 <= j < a.drop_last().len() && j != i implies (#[trigger] a.drop_last()[j]).0 != name by {
            assert(a.drop_last()[j] == a[j]);
        }
        lemma_last_value_unique(a.drop_last(), name, i);
    }
}

} // verus!

verus! {

/// Law: an arithmetic C type is held in an assembly type of its own size:
/// the alignment in bytes of the assembly type times 8 is the size in bits
/// of the C type, and only `double` goes to the floating-point type.
pub proof fn lemma_convert_type_keeps_size(t: TypeV)
    requires
        t.spec_is_arithmetic(),
    ensures
        crate::codegen::asm_ast::spec_alignment(spec_convert_type(t)) * 8 == t.spec_size(),
        (spec_convert_type(t) == AsmType::Double) == (t is Double),
{
}

} // verus!
