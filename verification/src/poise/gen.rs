use vstd::prelude::*;

use crate::parser::ast::{
    c_binary_value, c_unary_value,
    FuncDeclV, FuncDeclaration, Program, VarDeclaration, Statement, StatementKind, ForInit, Block, BlockItem, Decl, items_view, item_view, lemma_items_view, cases_view, opt_expr_view, BinaryOp, BlockItemV, Const, ConstV, DeclV, ExprKindV, ExprV, Expression, ExpressionKind, ForInitV, StmtKindV,
    StmtV, UnaryOp, VarDeclV, exprs_view, lemma_exprs_view,
};
use crate::poise::{poise_binary_value, poise_unary_value, PoiseFunc, PoiseFuncV, PoiseProg, PoiseStaticVar, PoiseStaticVarV, TopLevelItem, TopLevelItemV, tops_view, PInstV, PValV, PoiseBinaryOp, PoiseInstruction, PoiseUnaryOp, PoiseVal, insts_view, vals_view};
use crate::parser::stmt::decls_view;
use crate::text::{chars_of, dec_str, push_decimal, string_from_chars};
use crate::types::{InitialValue, InitialValueV, StaticInit, StaticInitV, IdentAttrs, IdentAttrsV, Symbol, SymbolTable, SymbolV, Type, TypeV, clone_type, type_eq};

verus! {

broadcast use vstd::std_specs::vec::group_vec_axioms, vstd::seq::group_seq_axioms;

/// The name of the `n`-th temporary.
pub open spec fn tmp_name(n: nat) -> Seq<char> {
    seq!['t', 'm', 'p', '.'] + dec_str(n)
}

/// The name of the `n`-th label.
pub open spec fn lab_name(n: nat) -> Seq<char> {
    seq!['l', 'a', 'b', '.'] + dec_str(n)
}

/// The state of generation: the instructions so far, the temporaries made
/// (name and type, in order) and the two counters.
pub struct GState {
    pub insts: Seq<PInstV>,
    pub temps: Seq<(Seq<char>, TypeV)>,
    pub vc: nat,
    pub lc: nat,
}

/// The type of the last temporary named `n`, if any.
pub open spec fn last_temp(temps: Seq<(Seq<char>, TypeV)>, n: Seq<char>) -> Option<TypeV>
    decreases temps.len(),
{
    if temps.len() == 0 {
        None
    } else if temps.last().0 == n {
        Some(temps.last().1)
    } else {
        last_temp(temps.drop_last(), n)
    }
}

/// The symbol table `base` with the temporaries `temps` added as locals.
pub open spec fn cur_get(base: SymbolTable, temps: Seq<(Seq<char>, TypeV)>, n: Seq<char>) -> Option<SymbolV> {
    match last_temp(temps, n) {
        Some(t) => Some(SymbolV { ident: n, datatype: t, attrs: IdentAttrsV::LocalAttr }),
        None => base.spec_get(n),
    }
}

pub open spec fn new_var(g: GState, t: TypeV) -> (GState, PValV) {
    let n = tmp_name(g.vc);
    (GState { temps: g.temps.push((n, t)), vc: g.vc + 1, ..g }, PValV::Variable(n))
}

pub open spec fn new_label(g: GState) -> (GState, Seq<char>) {
    (GState { lc: g.lc + 1, ..g }, lab_name(g.lc))
}

pub open spec fn emit(g: GState, i: PInstV) -> GState {
    GState { insts: g.insts.push(i), ..g }
}

pub open spec fn ty(e: ExprV) -> TypeV {
    e.ty->0
}

/// The types the generator converts between: arithmetic types and pointers.
pub open spec fn scalar(t: TypeV) -> bool {
    t.spec_is_arithmetic() || t is Pointer
}

/// `v` of type `s` as a value of type `d`.
pub open spec fn g_conv(g: GState, v: PValV, s: TypeV, d: TypeV) -> (GState, PValV) {
    if s == d {
        (g, v)
    } else {
        let (g1, dst) = new_var(g, d);
        let inst = if s is Double {
            if d.spec_is_signed() { PInstV::DoubleToInt { src: v, dst } } else { PInstV::DoubleToUInt { src: v, dst } }
        } else if d is Double {
            if s.spec_is_signed() { PInstV::IntToDouble { src: v, dst } } else { PInstV::UIntToDouble { src: v, dst } }
        } else if s.spec_size() == d.spec_size() {
            PInstV::Copy { src: v, dst }
        } else if s.spec_size() > d.spec_size() {
            PInstV::Truncate { src: v, dst }
        } else if s.spec_is_signed() {
            PInstV::SignExtend { src: v, dst }
        } else {
            PInstV::ZeroExtend { src: v, dst }
        };
        (emit(g1, inst), dst)
    }
}

/// The constant one of a type.
pub open spec fn one_of(t: TypeV) -> ConstV {
    match t {
        TypeV::Int => ConstV::Int(1),
        TypeV::Long => ConstV::Long(1),
        TypeV::UInt => ConstV::UInt(1),
        TypeV::Double => ConstV::Double(seq!['1', '.', '0']),
        _ => ConstV::ULong(1),
    }
}

pub open spec fn bin_op(op: BinaryOp) -> PoiseBinaryOp {
    match op {
        BinaryOp::Add => PoiseBinaryOp::Add,
        BinaryOp::Subtract => PoiseBinaryOp::Subtract,
        BinaryOp::Multiply => PoiseBinaryOp::Multiply,
        BinaryOp::Divide => PoiseBinaryOp::Divide,
        BinaryOp::Remainder => PoiseBinaryOp::Remainder,
        BinaryOp::LeftShift => PoiseBinaryOp::LeftShift,
        BinaryOp::RightShift => PoiseBinaryOp::RightShift,
        BinaryOp::BitwiseAnd => PoiseBinaryOp::BitwiseAnd,
        BinaryOp::BitwiseOr => PoiseBinaryOp::BitwiseOr,
        BinaryOp::BitwiseXor => PoiseBinaryOp::BitwiseXor,
        BinaryOp::Equal => PoiseBinaryOp::Equal,
        BinaryOp::NotEqual => PoiseBinaryOp::NotEqual,
        BinaryOp::LessThan => PoiseBinaryOp::LessThan,
        BinaryOp::GreaterThan => PoiseBinaryOp::GreaterThan,
        BinaryOp::LessOrEqual => PoiseBinaryOp::LessOrEqual,
        _ => PoiseBinaryOp::GreaterOrEqual,
    }
}

pub open spec fn un_op(op: UnaryOp) -> PoiseUnaryOp {
    match op {
        UnaryOp::Negate => PoiseUnaryOp::Negate,
        UnaryOp::Complement => PoiseUnaryOp::Complement,
        UnaryOp::Not => PoiseUnaryOp::Not,
    }
}

/// The instructions that compute `e`, and the value that holds the result.
pub open spec fn g_expr(g: GState, e: ExprV) -> (GState, PValV)
    decreases e, 2int,
{
    match e.kind {
        ExprKindV::Constant(c) => (g, PValV::Constant(c)),
        ExprKindV::Var(n) => (g, PValV::Variable(n)),
        ExprKindV::Cast(..) => g_cast(g, e),
        ExprKindV::Unary(..) => g_unary(g, e),
        ExprKindV::Binary(..) => g_binary(g, e),
        ExprKindV::Assignment(..) => g_assign(g, e),
        ExprKindV::Conditional(..) => g_cond(g, e),
        ExprKindV::PrefixIncrement(_) | ExprKindV::PrefixDecrement(_) => g_prefix(g, e),
        ExprKindV::PostfixIncrement(_) | ExprKindV::PostfixDecrement(_) => g_postfix(g, e),
        ExprKindV::FunctionCall(..) => g_call(g, e),
    }
}

pub open spec fn g_cast(g: GState, e: ExprV) -> (GState, PValV)
    decreases e, 1int,
{
    match e.kind {
        ExprKindV::Cast(t, inner) => {
            let (g1, v) = g_expr(g, *inner);
            g_conv(g1, v, ty(*inner), t)
        },
        _ => (g, PValV::Variable(Seq::empty())),
    }
}

pub open spec fn g_unary(g: GState, e: ExprV) -> (GState, PValV)
    decreases e, 1int,
{
    match e.kind {
        ExprKindV::Unary(op, inner) => {
            let (g1, src) = g_expr(g, *inner);
            let (g2, dst) = new_var(g1, ty(e));
            (emit(g2, PInstV::Unary { op: un_op(op), src, dst }), dst)
        },
        _ => (g, PValV::Variable(Seq::empty())),
    }
}

pub open spec fn g_binary(g: GState, e: ExprV) -> (GState, PValV)
    decreases e, 1int,
{
    match e.kind {
        ExprKindV::Binary(op, l, r) => if op is LogicalAnd || op is LogicalOr {
            let (g1, false_label) = new_label(g);
            let (g2, true_label) = new_label(g1);
            let (g3, dst) = new_var(g2, TypeV::Int);
            let and = op is LogicalAnd;
            let (g4, v1) = g_expr(g3, *l);
            let g5 = emit(
                g4,
                if and {
                    PInstV::JumpIfZero { condition: v1, identifier: false_label }
                } else {
                    PInstV::JumpIfNotZero { condition: v1, identifier: true_label }
                },
            );
            let (g6, v2) = g_expr(g5, *r);
            let g7 = emit(
                g6,
                if and {
                    PInstV::JumpIfZero { condition: v2, identifier: false_label }
                } else {
                    PInstV::JumpIfNotZero { condition: v2, identifier: true_label }
                },
            );
            let first = if and { 1i32 } else { 0i32 };
            let second = if and { 0i32 } else { 1i32 };
            let first_target = if and { true_label } else { false_label };
            let second_label = if and { false_label } else { true_label };
            let g8 = emit(g7, PInstV::Copy { src: PValV::Constant(ConstV::Int(first)), dst });
            let g9 = emit(g8, PInstV::Jump(first_target));
            let g10 = emit(g9, PInstV::Label(second_label));
            let g11 = emit(g10, PInstV::Copy { src: PValV::Constant(ConstV::Int(second)), dst });
            (emit(g11, PInstV::Label(first_target)), dst)
        } else {
            let (g1, v1) = g_expr(g, *l);
            let (g2, v2) = g_expr(g1, *r);
            let (g3, dst) = new_var(g2, ty(e));
            (emit(g3, PInstV::Binary { op: bin_op(op), src1: v1, src2: v2, dst }), dst)
        },
        _ => (g, PValV::Variable(Seq::empty())),
    }
}

pub open spec fn g_assign(g: GState, e: ExprV) -> (GState, PValV)
    decreases e, 1int,
{
    match e.kind {
        ExprKindV::Assignment(l, r) => {
            let (g1, lval) = g_expr(g, *l);
            let (g2, rval) = g_expr(g1, *r);
            (emit(g2, PInstV::Copy { src: rval, dst: lval }), lval)
        },
        _ => (g, PValV::Variable(Seq::empty())),
    }
}

pub open spec fn g_cond(g: GState, e: ExprV) -> (GState, PValV)
    decreases e, 1int,
{
    match e.kind {
        ExprKindV::Conditional(c, y, n) => {
            let (g1, cond) = new_var(g, ty(*c));
            let (g2, eval) = g_expr(g1, *c);
            let (g3, no_label) = new_label(g2);
            let (g4, yes_label) = new_label(g3);
            let (g5, dest) = new_var(g4, ty(e));
            let g6 = emit(g5, PInstV::Copy { src: eval, dst: cond });
            let g7 = emit(g6, PInstV::JumpIfZero { condition: cond, identifier: no_label });
            let (g8, r1) = g_expr(g7, *y);
            let g9 = emit(g8, PInstV::Copy { src: r1, dst: dest });
            let g10 = emit(g9, PInstV::Jump(yes_label));
            let g11 = emit(g10, PInstV::Label(no_label));
            let (g12, r2) = g_expr(g11, *n);
            let g13 = emit(g12, PInstV::Copy { src: r2, dst: dest });
            (emit(g13, PInstV::Label(yes_label)), dest)
        },
        _ => (g, PValV::Variable(Seq::empty())),
    }
}

/// `++x` or `--x`: the operand is updated in place.
pub open spec fn g_prefix(g: GState, e: ExprV) -> (GState, PValV)
    decreases e, 1int,
{
    match e.kind {
        ExprKindV::PrefixIncrement(inner) | ExprKindV::PrefixDecrement(inner) => {
            let incr = e.kind is PrefixIncrement;
            let (g1, v) = g_expr(g, *inner);
            (
                emit(
                    g1,
                    PInstV::Binary {
                        op: if incr { PoiseBinaryOp::Add } else { PoiseBinaryOp::Subtract },
                        src1: v,
                        src2: PValV::Constant(one_of(ty(*inner))),
                        dst: v,
                    },
                ),
                v,
            )
        },
        _ => (g, PValV::Variable(Seq::empty())),
    }
}

/// `x++` or `x--`: the old value is copied out first.
pub open spec fn g_postfix(g: GState, e: ExprV) -> (GState, PValV)
    decreases e, 1int,
{
    match e.kind {
        ExprKindV::PostfixIncrement(inner) | ExprKindV::PostfixDecrement(inner) => {
            let incr = e.kind is PostfixIncrement;
            let (g1, v) = g_expr(g, *inner);
            let (g2, orig) = new_var(g1, ty(*inner));
            let g3 = emit(g2, PInstV::Copy { src: v, dst: orig });
            (
                emit(
                    g3,
                    PInstV::Binary {
                        op: if incr { PoiseBinaryOp::Add } else { PoiseBinaryOp::Subtract },
                        src1: v,
                        src2: PValV::Constant(one_of(ty(*inner))),
                        dst: v,
                    },
                ),
                orig,
            )
        },
        _ => (g, PValV::Variable(Seq::empty())),
    }
}

pub open spec fn g_call(g: GState, e: ExprV) -> (GState, PValV)
    decreases e, 1int,
{
    match e.kind {
        ExprKindV::FunctionCall(name, args) => {
            let (g1, dst) = new_var(g, ty(e));
            let (g2, vals) = g_args(g1, args, Seq::empty());
            (emit(g2, PInstV::FunctionCall { ident: name, args: vals, dst }), dst)
        },
        _ => (g, PValV::Variable(Seq::empty())),
    }
}

/// The arguments of a call, each computed and copied to a temporary of its type.
pub open spec fn g_args(g: GState, args: Seq<ExprV>, acc: Seq<PValV>) -> (GState, Seq<PValV>)
    decreases args, 3int,
{
    if args.len() == 0 {
        (g, acc)
    } else {
        let (g1, v) = g_expr(g, args[0]);
        let (g2, tmp) = new_var(g1, ty(args[0]));
        let g3 = emit(g2, PInstV::Copy { src: v, dst: tmp });
        g_args(g3, args.subrange(1, args.len() as int), acc.push(tmp))
    }
}

/// The number of nodes of an expression.
pub open spec fn esize(e: ExprV) -> nat
    decreases e, 0int,
{
    1 + match e.kind {
        ExprKindV::Constant(_) | ExprKindV::Var(_) => 0,
        ExprKindV::Cast(_, i) | ExprKindV::Unary(_, i) | ExprKindV::PrefixIncrement(i) | ExprKindV::PrefixDecrement(i)
        | ExprKindV::PostfixIncrement(i) | ExprKindV::PostfixDecrement(i) => esize(*i),
        ExprKindV::Binary(_, l, r) | ExprKindV::Assignment(l, r) => esize(*l) + esize(*r),
        ExprKindV::Conditional(c, y, n) => esize(*c) + esize(*y) + esize(*n),
        ExprKindV::FunctionCall(_, args) => args_size(args) + args.len(),
    }
}

pub open spec fn args_size(args: Seq<ExprV>) -> nat
    decreases args, 0int,
{
    if args.len() == 0 {
        0
    } else {
        esize(args[0]) + args_size(args.subrange(1, args.len() as int))
    }
}

/// The expressions the generator handles: every node typed with a scalar
/// type, and no operator of assignment or `?` left inside a binary node.
pub open spec fn gen_ok(e: ExprV) -> bool
    decreases e, 0int,
{
    &&& e.ty is Some
    &&& scalar(e.ty->0)
    &&& match e.kind {
        ExprKindV::Constant(_) | ExprKindV::Var(_) => true,
        ExprKindV::Cast(t, i) => scalar(t) && gen_ok(*i),
        ExprKindV::Unary(_, i) | ExprKindV::PrefixIncrement(i) | ExprKindV::PrefixDecrement(i)
        | ExprKindV::PostfixIncrement(i) | ExprKindV::PostfixDecrement(i) => gen_ok(*i),
        ExprKindV::Binary(op, l, r) => !(op is Assign || op is OpSet || op is Ternary) && gen_ok(*l) && gen_ok(*r),
        ExprKindV::Assignment(l, r) => gen_ok(*l) && gen_ok(*r),
        ExprKindV::Conditional(c, y, n) => gen_ok(*c) && gen_ok(*y) && gen_ok(*n),
        ExprKindV::FunctionCall(_, args) => args_ok(args),
    }
}

pub open spec fn args_ok(args: Seq<ExprV>) -> bool
    decreases args, 0int,
{
    args.len() == 0 || (gen_ok(args[0]) && args_ok(args.subrange(1, args.len() as int)))
}

/// Counters for fresh temporaries and labels, with the temporaries made so
/// far and the symbol table they were added to.
pub struct TmpCount {
    pub var_counter: usize,
    pub label_counter: usize,
    pub temps: Ghost<Seq<(Seq<char>, TypeV)>>,
    pub base: Ghost<SymbolTable>,
}

/// The generation state that `insts` and `c` hold.
pub open spec fn state_of(c: TmpCount, insts: Seq<PoiseInstruction>) -> GState {
    GState { insts: insts_view(insts), temps: c.temps@, vc: c.var_counter as nat, lc: c.label_counter as nat }
}

/// `syms` is the base table with the temporaries of `c` added.
pub open spec fn tables_agree(c: TmpCount, syms: SymbolTable) -> bool {
    &&& forall|n: Seq<char>| #[trigger] syms.spec_get(n) == cur_get(c.base@, c.temps@, n)
    &&& temps_ok(c.temps@)
}

/// Whether `n` begins with the prefix of temporaries, `tmp.`.
pub open spec fn has_tmp_prefix(n: Seq<char>) -> bool {
    n.len() >= 4 && n.subrange(0, 4) == seq!['t', 'm', 'p', '.']
}

/// Every temporary has a temporary's name and a scalar type.
pub open spec fn temps_ok(temps: Seq<(Seq<char>, TypeV)>) -> bool {
    forall|i: int| 0 <= i < temps.len() ==> has_tmp_prefix(#[trigger] temps[i].0) && scalar(temps[i].1)
}

proof fn lemma_last_temp(temps: Seq<(Seq<char>, TypeV)>, n: Seq<char>)
    requires
        temps_ok(temps),
    ensures
        last_temp(temps, n) is Some ==> has_tmp_prefix(n) && scalar(last_temp(temps, n)->0),
    decreases temps.len(),
{
    if temps.len() > 0 {
        assert(temps.last() == temps[temps.len() - 1]);
        lemma_last_temp(temps.drop_last(), n);
    }
}

/// The name `prefix` followed by the decimal digits of `n`.
fn numbered(prefix: char, n: usize) -> (r: String)
    ensures
        prefix == 't' ==> r@ == tmp_name(n as nat),
        prefix == 'l' ==> r@ == lab_name(n as nat),
{
    let mut v: Vec<char> = Vec::new();
    if prefix == 't' {
        v.push('t');
        v.push('m');
        v.push('p');
    } else {
        v.push('l');
        v.push('a');
        v.push('b');
    }
    v.push('.');
    push_decimal(n as u64, &mut v);
    if prefix == 't' {
        assert(v@ =~= tmp_name(n as nat));
    } else if prefix == 'l' {
        assert(v@ =~= lab_name(n as nat));
    }
    string_from_chars(&v)
}

impl TmpCount {
    /// A fresh temporary of type `var_type`, recorded as a local.
    fn new_var(&mut self, var_type: Type, symbols: &mut SymbolTable, Ghost(insts): Ghost<Seq<PoiseInstruction>>) -> (r: PoiseVal)
        requires
            old(self).var_counter < usize::MAX,
            tables_agree(*old(self), *old(symbols)),
            scalar(var_type@),
        ensures
            (state_of(*final(self), insts), r@) == new_var(state_of(*old(self), insts), var_type@),
            tables_agree(*final(self), *final(symbols)),
            final(self).base == old(self).base,
    {
        let name = numbered('t', self.var_counter);
        let ghost e = (name@, var_type@);
        let ghost old_temps = self.temps@;
        symbols.insert(name.clone(), Symbol { ident: name.clone(), datatype: var_type, attrs: IdentAttrs::LocalAttr });
        self.temps = Ghost(self.temps@.push(e));
        self.var_counter = self.var_counter + 1;
        proof {
            assert forall|n: Seq<char>| #[trigger] symbols.spec_get(n) == cur_get(self.base@, self.temps@, n) by {
                assert(self.temps@.drop_last() =~= old_temps);
            }
            assert(e.0.subrange(0, 4) =~= seq!['t', 'm', 'p', '.']);
            assert forall|i: int| 0 <= i < self.temps@.len() implies has_tmp_prefix(#[trigger] self.temps@[i].0)
                && scalar(self.temps@[i].1) by {
                if i < old_temps.len() {
                    assert(self.temps@[i] == old_temps[i]);
                } else {
                    assert(self.temps@[i] == e);
                }
            }
        }
        PoiseVal::Variable(name)
    }

    /// A fresh label.
    fn new_label_string(&mut self) -> (r: String)
        requires
            old(self).label_counter < usize::MAX,
        ensures
            r@ == lab_name(old(self).label_counter as nat),
            final(self).label_counter == old(self).label_counter + 1,
            final(self).var_counter == old(self).var_counter,
            final(self).temps == old(self).temps,
            final(self).base == old(self).base,
    {
        let name = numbered('l', self.label_counter);
        self.label_counter = self.label_counter + 1;
        name
    }
}

/// The type the type checker gave an expression.
fn get_type(expr: &Expression) -> (r: Type)
    requires
        expr.expression_type is Some,
    ensures
        r@ == ty(expr@),
{
    match &expr.expression_type {
        Some(t) => clone_type(t),
        None => vstd::pervasive::unreached(),
    }
}

/// `src_val` of type `src_type` as a value of `dst_type`.
fn emit_type_conversion(
    src_val: PoiseVal,
    src_type: &Type,
    dst_type: &Type,
    instructions: &mut Vec<PoiseInstruction>,
    symbols: &mut SymbolTable,
    count: &mut TmpCount,
) -> (r: PoiseVal)
    requires
        scalar(src_type@),
        scalar(dst_type@),
        tables_agree(*old(count), *old(symbols)),
        old(count).var_counter < usize::MAX,
    ensures
        ({
            let (g2, v) = g_conv(state_of(*old(count), old(instructions)@), src_val@, src_type@, dst_type@);
            state_of(*final(count), final(instructions)@) == g2 && r@ == v
        }),
        tables_agree(*final(count), *final(symbols)),
        final(count).base == old(count).base,
        old(count).var_counter <= final(count).var_counter <= old(count).var_counter + 1,
        final(count).label_counter == old(count).label_counter,
{
    if type_eq(src_type, dst_type) {
        return src_val;
    }
    let dst_val = count.new_var(clone_type(dst_type), symbols, Ghost(instructions@));
    let dst = dst_val.duplicate();
    let inst = if src_type.is_double() {
        if dst_type.is_signed() {
            PoiseInstruction::DoubleToInt { src: src_val, dst }
        } else {
            PoiseInstruction::DoubleToUInt { src: src_val, dst }
        }
    } else if dst_type.is_double() {
        if src_type.is_signed() {
            PoiseInstruction::IntToDouble { src: src_val, dst }
        } else {
            PoiseInstruction::UIntToDouble { src: src_val, dst }
        }
    } else if src_type.size() == dst_type.size() {
        PoiseInstruction::Copy { src: src_val, dst }
    } else if src_type.size() > dst_type.size() {
        PoiseInstruction::Truncate { src: src_val, dst }
    } else if src_type.is_signed() {
        PoiseInstruction::SignExtend { src: src_val, dst }
    } else {
        PoiseInstruction::ZeroExtend { src: src_val, dst }
    };
    instructions.push(inst);
    assert(insts_view(instructions@) =~= insts_view(old(instructions)@).push(inst@));
    dst_val
}

/// Appends `inst`.
fn push_inst(instructions: &mut Vec<PoiseInstruction>, inst: PoiseInstruction)
    ensures
        insts_view(final(instructions)@) == insts_view(old(instructions)@).push(inst@),
{
    instructions.push(inst);
    assert(insts_view(instructions@) =~= insts_view(old(instructions)@).push(inst@));
}

/// The constant one of a type.
fn one_of_type(t: &Type) -> (r: Const)
    ensures
        r@ == one_of(t@),
{
    match t {
        Type::Int => Const::Int(1),
        Type::Long => Const::Long(1),
        Type::UInt => Const::UInt(1),
        Type::Double => {
            let mut v: Vec<char> = Vec::new();
            v.push('1');
            v.push('.');
            v.push('0');
            assert(v@ =~= seq!['1', '.', '0']);
            Const::Double(string_from_chars(&v))
        },
        _ => Const::ULong(1),
    }
}

fn get_bin_op(op: &BinaryOp) -> (r: PoiseBinaryOp)
    ensures
        r == bin_op(*op),
{
    match op {
        BinaryOp::Add => PoiseBinaryOp::Add,
        BinaryOp::Subtract => PoiseBinaryOp::Subtract,
        BinaryOp::Multiply => PoiseBinaryOp::Multiply,
        BinaryOp::Divide => PoiseBinaryOp::Divide,
        BinaryOp::Remainder => PoiseBinaryOp::Remainder,
        BinaryOp::LeftShift => PoiseBinaryOp::LeftShift,
        BinaryOp::RightShift => PoiseBinaryOp::RightShift,
        BinaryOp::BitwiseAnd => PoiseBinaryOp::BitwiseAnd,
        BinaryOp::BitwiseOr => PoiseBinaryOp::BitwiseOr,
        BinaryOp::BitwiseXor => PoiseBinaryOp::BitwiseXor,
        BinaryOp::Equal => PoiseBinaryOp::Equal,
        BinaryOp::NotEqual => PoiseBinaryOp::NotEqual,
        BinaryOp::LessThan => PoiseBinaryOp::LessThan,
        BinaryOp::GreaterThan => PoiseBinaryOp::GreaterThan,
        BinaryOp::LessOrEqual => PoiseBinaryOp::LessOrEqual,
        _ => PoiseBinaryOp::GreaterOrEqual,
    }
}

fn emit_expr_result(
    expr: &Expression,
    instructions: &mut Vec<PoiseInstruction>,
    symbols: &mut SymbolTable,
    count: &mut TmpCount,
) -> (r: PoiseVal)
        requires
            gen_ok(expr@),
            tables_agree(*old(count), *old(symbols)),
            old(count).var_counter + 2 * esize(expr@) <= usize::MAX,
            old(count).label_counter + 2 * esize(expr@) <= usize::MAX,
        ensures
            ({
                let (g2, v) = g_expr(state_of(*old(count), old(instructions)@), expr@);
                state_of(*final(count), final(instructions)@) == g2 && r@ == v
            }),
            tables_agree(*final(count), *final(symbols)),
            final(count).base == old(count).base,
            old(count).var_counter <= final(count).var_counter <= old(count).var_counter + 2 * esize(expr@),
            old(count).label_counter <= final(count).label_counter <= old(count).label_counter + 2 * esize(expr@),
        decreases expr, 2int,
{
    match &expr.kind {
        ExpressionKind::Constant(val) => PoiseVal::Constant(val.duplicate()),
        ExpressionKind::Var(name) => PoiseVal::Variable(name.clone()),
        ExpressionKind::Cast(..) => emit_cast(expr, instructions, symbols, count),
        ExpressionKind::Unary(..) => emit_un_exp(expr, instructions, symbols, count),
        ExpressionKind::Binary(..) => emit_bin_exp(expr, instructions, symbols, count),
        ExpressionKind::Assignment(..) => emit_assignment(expr, instructions, symbols, count),
        ExpressionKind::Conditional(..) => emit_conditional(expr, instructions, symbols, count),
        ExpressionKind::PrefixIncrement(_) | ExpressionKind::PrefixDecrement(_) => prefix_op(expr, instructions, symbols, count),
        ExpressionKind::PostfixIncrement(_) | ExpressionKind::PostfixDecrement(_) => postfix_op(expr, instructions, symbols, count),
        ExpressionKind::FunctionCall(..) => emit_call(expr, instructions, symbols, count),
    }
}

fn emit_cast(
    expr: &Expression,
    instructions: &mut Vec<PoiseInstruction>,
    symbols: &mut SymbolTable,
    count: &mut TmpCount,
) -> (r: PoiseVal)
        requires
            expr.kind is Cast,
            gen_ok(expr@),
            tables_agree(*old(count), *old(symbols)),
            old(count).var_counter + 2 * esize(expr@) <= usize::MAX,
            old(count).label_counter + 2 * esize(expr@) <= usize::MAX,
        ensures
            ({
                let (g2, v) = g_cast(state_of(*old(count), old(instructions)@), expr@);
                state_of(*final(count), final(instructions)@) == g2 && r@ == v
            }),
            tables_agree(*final(count), *final(symbols)),
            final(count).base == old(count).base,
            old(count).var_counter <= final(count).var_counter <= old(count).var_counter + 2 * esize(expr@),
            old(count).label_counter <= final(count).label_counter <= old(count).label_counter + 2 * esize(expr@),
        decreases expr, 1int,
{
    match &expr.kind {
        ExpressionKind::Cast(t, e) => {
            let var = emit_expr_result(e, instructions, symbols, count);
            let src_type = get_type(e);
            emit_type_conversion(var, &src_type, t, instructions, symbols, count)
        },
        _ => vstd::pervasive::unreached(),
    }
}

fn emit_un_exp(
    expr: &Expression,
    instructions: &mut Vec<PoiseInstruction>,
    symbols: &mut SymbolTable,
    count: &mut TmpCount,
) -> (r: PoiseVal)
        requires
            expr.kind is Unary,
            gen_ok(expr@),
            tables_agree(*old(count), *old(symbols)),
            old(count).var_counter + 2 * esize(expr@) <= usize::MAX,
            old(count).label_counter + 2 * esize(expr@) <= usize::MAX,
        ensures
            ({
                let (g2, v) = g_unary(state_of(*old(count), old(instructions)@), expr@);
                state_of(*final(count), final(instructions)@) == g2 && r@ == v
            }),
            tables_agree(*final(count), *final(symbols)),
            final(count).base == old(count).base,
            old(count).var_counter <= final(count).var_counter <= old(count).var_counter + 2 * esize(expr@),
            old(count).label_counter <= final(count).label_counter <= old(count).label_counter + 2 * esize(expr@),
        decreases expr, 1int,
{
    match &expr.kind {
        ExpressionKind::Unary(op, inner) => {
            let src = emit_expr_result(inner, instructions, symbols, count);
            let dst = count.new_var(get_type(expr), symbols, Ghost(instructions@));
            let unary_op = match op {
                UnaryOp::Negate => PoiseUnaryOp::Negate,
                UnaryOp::Complement => PoiseUnaryOp::Complement,
                UnaryOp::Not => PoiseUnaryOp::Not,
            };
            push_inst(instructions, PoiseInstruction::Unary { op: unary_op, src, dst: dst.duplicate() });
            dst
        },
        _ => vstd::pervasive::unreached(),
    }
}

fn emit_short_circuit_exp(
    expr: &Expression,
    instructions: &mut Vec<PoiseInstruction>,
    symbols: &mut SymbolTable,
    count: &mut TmpCount,
) -> (r: PoiseVal)
        requires
            expr.kind matches ExpressionKind::Binary(op, _, _) && (op is LogicalAnd || op is LogicalOr),
            gen_ok(expr@),
            tables_agree(*old(count), *old(symbols)),
            old(count).var_counter + 2 * esize(expr@) <= usize::MAX,
            old(count).label_counter + 2 * esize(expr@) <= usize::MAX,
        ensures
            ({
                let (g2, v) = g_binary(state_of(*old(count), old(instructions)@), expr@);
                state_of(*final(count), final(instructions)@) == g2 && r@ == v
            }),
            tables_agree(*final(count), *final(symbols)),
            final(count).base == old(count).base,
            old(count).var_counter <= final(count).var_counter <= old(count).var_counter + 2 * esize(expr@),
            old(count).label_counter <= final(count).label_counter <= old(count).label_counter + 2 * esize(expr@),
        decreases expr, 0int,
{
    match &expr.kind {
        ExpressionKind::Binary(op, exp1, exp2) => {
            let and = matches!(op, BinaryOp::LogicalAnd);
            let false_label = count.new_label_string();
            let true_label = count.new_label_string();
            let dst = count.new_var(Type::Int, symbols, Ghost(instructions@));
            let v1 = emit_expr_result(exp1, instructions, symbols, count);
            if and {
                push_inst(instructions, PoiseInstruction::JumpIfZero { condition: v1, identifier: false_label.clone() });
            } else {
                push_inst(instructions, PoiseInstruction::JumpIfNotZero { condition: v1, identifier: true_label.clone() });
            }
            let v2 = emit_expr_result(exp2, instructions, symbols, count);
            if and {
                push_inst(instructions, PoiseInstruction::JumpIfZero { condition: v2, identifier: false_label.clone() });
                push_inst(instructions, PoiseInstruction::Copy { src: PoiseVal::Constant(Const::Int(1)), dst: dst.duplicate() });
                push_inst(instructions, PoiseInstruction::Jump(true_label.clone()));
                push_inst(instructions, PoiseInstruction::Label(false_label));
                push_inst(instructions, PoiseInstruction::Copy { src: PoiseVal::Constant(Const::Int(0)), dst: dst.duplicate() });
                push_inst(instructions, PoiseInstruction::Label(true_label));
            } else {
                push_inst(instructions, PoiseInstruction::JumpIfNotZero { condition: v2, identifier: true_label.clone() });
                push_inst(instructions, PoiseInstruction::Copy { src: PoiseVal::Constant(Const::Int(0)), dst: dst.duplicate() });
                push_inst(instructions, PoiseInstruction::Jump(false_label.clone()));
                push_inst(instructions, PoiseInstruction::Label(true_label));
                push_inst(instructions, PoiseInstruction::Copy { src: PoiseVal::Constant(Const::Int(1)), dst: dst.duplicate() });
                push_inst(instructions, PoiseInstruction::Label(false_label));
            }
            dst
        },
        _ => vstd::pervasive::unreached(),
    }
}

fn emit_bin_exp(
    expr: &Expression,
    instructions: &mut Vec<PoiseInstruction>,
    symbols: &mut SymbolTable,
    count: &mut TmpCount,
) -> (r: PoiseVal)
        requires
            expr.kind is Binary,
            gen_ok(expr@),
            tables_agree(*old(count), *old(symbols)),
            old(count).var_counter + 2 * esize(expr@) <= usize::MAX,
            old(count).label_counter + 2 * esize(expr@) <= usize::MAX,
        ensures
            ({
                let (g2, v) = g_binary(state_of(*old(count), old(instructions)@), expr@);
                state_of(*final(count), final(instructions)@) == g2 && r@ == v
            }),
            tables_agree(*final(count), *final(symbols)),
            final(count).base == old(count).base,
            old(count).var_counter <= final(count).var_counter <= old(count).var_counter + 2 * esize(expr@),
            old(count).label_counter <= final(count).label_counter <= old(count).label_counter + 2 * esize(expr@),
        decreases expr, 1int,
{
    match &expr.kind {
        ExpressionKind::Binary(op, exp1, exp2) => {
            if matches!(op, BinaryOp::LogicalAnd | BinaryOp::LogicalOr) {
                emit_short_circuit_exp(expr, instructions, symbols, count)
            } else {
                let binop = get_bin_op(op);
                let v1 = emit_expr_result(exp1, instructions, symbols, count);
                let v2 = emit_expr_result(exp2, instructions, symbols, count);
                let dst = count.new_var(get_type(expr), symbols, Ghost(instructions@));
                push_inst(instructions, PoiseInstruction::Binary { op: binop, src1: v1, src2: v2, dst: dst.duplicate() });
                dst
            }
        },
        _ => vstd::pervasive::unreached(),
    }
}

fn emit_assignment(
    expr: &Expression,
    instructions: &mut Vec<PoiseInstruction>,
    symbols: &mut SymbolTable,
    count: &mut TmpCount,
) -> (r: PoiseVal)
        requires
            expr.kind is Assignment,
            gen_ok(expr@),
            tables_agree(*old(count), *old(symbols)),
            old(count).var_counter + 2 * esize(expr@) <= usize::MAX,
            old(count).label_counter + 2 * esize(expr@) <= usize::MAX,
        ensures
            ({
                let (g2, v) = g_assign(state_of(*old(count), old(instructions)@), expr@);
                state_of(*final(count), final(instructions)@) == g2 && r@ == v
            }),
            tables_agree(*final(count), *final(symbols)),
            final(count).base == old(count).base,
            old(count).var_counter <= final(count).var_counter <= old(count).var_counter + 2 * esize(expr@),
            old(count).label_counter <= final(count).label_counter <= old(count).label_counter + 2 * esize(expr@),
        decreases expr, 1int,
{
    match &expr.kind {
        ExpressionKind::Assignment(lhs, rhs) => {
            let lval = emit_expr_result(lhs, instructions, symbols, count);
            let rval = emit_expr_result(rhs, instructions, symbols, count);
            push_inst(instructions, PoiseInstruction::Copy { src: rval, dst: lval.duplicate() });
            lval
        },
        _ => vstd::pervasive::unreached(),
    }
}

fn emit_conditional(
    expr: &Expression,
    instructions: &mut Vec<PoiseInstruction>,
    symbols: &mut SymbolTable,
    count: &mut TmpCount,
) -> (r: PoiseVal)
        requires
            expr.kind is Conditional,
            gen_ok(expr@),
            tables_agree(*old(count), *old(symbols)),
            old(count).var_counter + 2 * esize(expr@) <= usize::MAX,
            old(count).label_counter + 2 * esize(expr@) <= usize::MAX,
        ensures
            ({
                let (g2, v) = g_cond(state_of(*old(count), old(instructions)@), expr@);
                state_of(*final(count), final(instructions)@) == g2 && r@ == v
            }),
            tables_agree(*final(count), *final(symbols)),
            final(count).base == old(count).base,
            old(count).var_counter <= final(count).var_counter <= old(count).var_counter + 2 * esize(expr@),
            old(count).label_counter <= final(count).label_counter <= old(count).label_counter + 2 * esize(expr@),
        decreases expr, 1int,
{
    match &expr.kind {
        ExpressionKind::Conditional(c, y, n) => {
            assert(gen_ok(c@));
            let cond = count.new_var(get_type(c), symbols, Ghost(instructions@));
            let eval = emit_expr_result(c, instructions, symbols, count);
            let no_label = count.new_label_string();
            let yes_label = count.new_label_string();
            let dest = count.new_var(get_type(expr), symbols, Ghost(instructions@));
            push_inst(instructions, PoiseInstruction::Copy { src: eval, dst: cond.duplicate() });
            push_inst(instructions, PoiseInstruction::JumpIfZero { condition: cond, identifier: no_label.clone() });
            let result = emit_expr_result(y, instructions, symbols, count);
            push_inst(instructions, PoiseInstruction::Copy { src: result, dst: dest.duplicate() });
            push_inst(instructions, PoiseInstruction::Jump(yes_label.clone()));
            push_inst(instructions, PoiseInstruction::Label(no_label));
            let result = emit_expr_result(n, instructions, symbols, count);
            push_inst(instructions, PoiseInstruction::Copy { src: result, dst: dest.duplicate() });
            push_inst(instructions, PoiseInstruction::Label(yes_label));
            dest
        },
        _ => vstd::pervasive::unreached(),
    }
}

fn prefix_op(
    expr: &Expression,
    instructions: &mut Vec<PoiseInstruction>,
    symbols: &mut SymbolTable,
    count: &mut TmpCount,
) -> (r: PoiseVal)
        requires
            (expr.kind is PrefixIncrement || expr.kind is PrefixDecrement),
            gen_ok(expr@),
            tables_agree(*old(count), *old(symbols)),
            old(count).var_counter + 2 * esize(expr@) <= usize::MAX,
            old(count).label_counter + 2 * esize(expr@) <= usize::MAX,
        ensures
            ({
                let (g2, v) = g_prefix(state_of(*old(count), old(instructions)@), expr@);
                state_of(*final(count), final(instructions)@) == g2 && r@ == v
            }),
            tables_agree(*final(count), *final(symbols)),
            final(count).base == old(count).base,
            old(count).var_counter <= final(count).var_counter <= old(count).var_counter + 2 * esize(expr@),
            old(count).label_counter <= final(count).label_counter <= old(count).label_counter + 2 * esize(expr@),
        decreases expr, 1int,
{
    let (e, incr) = match &expr.kind {
        ExpressionKind::PrefixIncrement(exp) => (exp, true),
        ExpressionKind::PrefixDecrement(exp) => (exp, false),
        _ => vstd::pervasive::unreached(),
    };
    let v = emit_expr_result(e, instructions, symbols, count);
    let one = one_of_type(&get_type(e));
    push_inst(
        instructions,
        PoiseInstruction::Binary {
            op: if incr { PoiseBinaryOp::Add } else { PoiseBinaryOp::Subtract },
            src1: v.duplicate(),
            src2: PoiseVal::Constant(one),
            dst: v.duplicate(),
        },
    );
    v
}

fn postfix_op(
    expr: &Expression,
    instructions: &mut Vec<PoiseInstruction>,
    symbols: &mut SymbolTable,
    count: &mut TmpCount,
) -> (r: PoiseVal)
        requires
            (expr.kind is PostfixIncrement || expr.kind is PostfixDecrement),
            gen_ok(expr@),
            tables_agree(*old(count), *old(symbols)),
            old(count).var_counter + 2 * esize(expr@) <= usize::MAX,
            old(count).label_counter + 2 * esize(expr@) <= usize::MAX,
        ensures
            ({
                let (g2, v) = g_postfix(state_of(*old(count), old(instructions)@), expr@);
                state_of(*final(count), final(instructions)@) == g2 && r@ == v
            }),
            tables_agree(*final(count), *final(symbols)),
            final(count).base == old(count).base,
            old(count).var_counter <= final(count).var_counter <= old(count).var_counter + 2 * esize(expr@),
            old(count).label_counter <= final(count).label_counter <= old(count).label_counter + 2 * esize(expr@),
        decreases expr, 1int,
{
    let (e, incr) = match &expr.kind {
        ExpressionKind::PostfixIncrement(exp) => (exp, true),
        ExpressionKind::PostfixDecrement(exp) => (exp, false),
        _ => vstd::pervasive::unreached(),
    };
    let v = emit_expr_result(e, instructions, symbols, count);
    assert(gen_ok(e@));
    let orig = count.new_var(get_type(e), symbols, Ghost(instructions@));
    push_inst(instructions, PoiseInstruction::Copy { src: v.duplicate(), dst: orig.duplicate() });
    let one = one_of_type(&get_type(e));
    push_inst(
        instructions,
        PoiseInstruction::Binary {
            op: if incr { PoiseBinaryOp::Add } else { PoiseBinaryOp::Subtract },
            src1: v.duplicate(),
            src2: PoiseVal::Constant(one),
            dst: v,
        },
    );
    orig
}

fn emit_call(
    expr: &Expression,
    instructions: &mut Vec<PoiseInstruction>,
    symbols: &mut SymbolTable,
    count: &mut TmpCount,
) -> (r: PoiseVal)
        requires
            expr.kind is FunctionCall,
            gen_ok(expr@),
            tables_agree(*old(count), *old(symbols)),
            old(count).var_counter + 2 * esize(expr@) <= usize::MAX,
            old(count).label_counter + 2 * esize(expr@) <= usize::MAX,
        ensures
            ({
                let (g2, v) = g_call(state_of(*old(count), old(instructions)@), expr@);
                state_of(*final(count), final(instructions)@) == g2 && r@ == v
            }),
            tables_agree(*final(count), *final(symbols)),
            final(count).base == old(count).base,
            old(count).var_counter <= final(count).var_counter <= old(count).var_counter + 2 * esize(expr@),
            old(count).label_counter <= final(count).label_counter <= old(count).label_counter + 2 * esize(expr@),
        decreases expr, 1int,
{
    match &expr.kind {
        ExpressionKind::FunctionCall(ident, args) => {
            let dst = count.new_var(get_type(expr), symbols, Ghost(instructions@));
            let ghost av = exprs_view(args@);
            let ghost g1 = state_of(*count, instructions@);
            proof {
                lemma_exprs_view(args@);
                assert(av.subrange(0, av.len() as int) =~= av);
                assert(vals_view(Seq::<PoiseVal>::empty()) =~= Seq::<PValV>::empty());
            }
            let mut poiseargs: Vec<PoiseVal> = Vec::new();
            let mut i: usize = 0;
            while i < args.len()
                invariant
                    i <= args@.len(),
                    av == exprs_view(args@),
                    av.len() == args@.len(),
                    forall|j: int| 0 <= j < args@.len() ==> #[trigger] av[j] == args@[j]@,
                    expr.kind is FunctionCall && expr.kind->FunctionCall_1 == *args,
                    args_ok(av.subrange(i as int, av.len() as int)),
                    g_args(g1, av, Seq::empty()) == g_args(state_of(*count, instructions@), av.subrange(i as int, av.len() as int), vals_view(poiseargs@)),
                    tables_agree(*count, *symbols),
                    count.base == old(count).base,
                    count.var_counter + 2 * args_size(av.subrange(i as int, av.len() as int)) + (av.len() - i) <= old(count).var_counter + 2 * esize(expr@),
                    count.label_counter + 2 * args_size(av.subrange(i as int, av.len() as int)) <= old(count).label_counter + 2 * esize(expr@),
                    old(count).var_counter < count.var_counter,
                    old(count).label_counter <= count.label_counter,
                    old(count).var_counter + 2 * esize(expr@) <= usize::MAX,
                    old(count).label_counter + 2 * esize(expr@) <= usize::MAX,
                decreases args@.len() - i,
            {
                proof {
                    vstd::std_specs::vec::axiom_vec_index_decreases(*args, i as int);
                    assert(decreases_to!(*expr => args@[i as int]));
                }
                let ghost sub = av.subrange(i as int, av.len() as int);
                assert(sub[0] == av[i as int]);
                assert(sub.subrange(1, sub.len() as int) =~= av.subrange(i + 1, av.len() as int));
                assert(gen_ok(args@[i as int]@));
                let exp = emit_expr_result(&args[i], instructions, symbols, count);
                let tmp = count.new_var(get_type(&args[i]), symbols, Ghost(instructions@));
                push_inst(instructions, PoiseInstruction::Copy { src: exp, dst: tmp.duplicate() });
                proof {
                    assert(vals_view(poiseargs@.push(tmp)) =~= vals_view(poiseargs@).push(tmp@));
                }
                poiseargs.push(tmp);
                i = i + 1;
            }
            proof {
                assert(av.subrange(i as int, av.len() as int) =~= Seq::<ExprV>::empty());
            }
            push_inst(instructions, PoiseInstruction::FunctionCall { ident: ident.clone(), args: poiseargs, dst: dst.duplicate() });
            dst
        },
        _ => vstd::pervasive::unreached(),
    }
}


/// `kind`, an underscore and `lab`: the labels of loops, switches and cases.
pub open spec fn label_of(kind: Seq<char>, lab: Seq<char>) -> Seq<char> {
    kind + seq!['_'] + lab
}

pub open spec fn kw_break() -> Seq<char> {
    seq!['b', 'r', 'e', 'a', 'k']
}

pub open spec fn kw_cont() -> Seq<char> {
    seq!['c', 'o', 'n', 't']
}

pub open spec fn kw_start() -> Seq<char> {
    seq!['s', 't', 'a', 'r', 't']
}

pub open spec fn kw_case() -> Seq<char> {
    seq!['c', 'a', 's', 'e']
}

pub open spec fn kw_default() -> Seq<char> {
    seq!['d', 'e', 'f', 'a', 'u', 'l', 't']
}

/// Whether `sym` belongs to a static object.
pub open spec fn is_static_sym(sym: Option<SymbolV>) -> bool {
    sym is Some && sym->0.attrs is StaticAttr
}

/// A local variable declaration: nothing for a static one, else the
/// initializer, converted to the variable's type and copied into it.
pub open spec fn g_vdecl(g: GState, base: SymbolTable, d: VarDeclV) -> GState {
    if is_static_sym(cur_get(base, g.temps, d.identifier)) {
        g
    } else {
        match d.init {
            Some(init) => {
                let (g1, v) = g_expr(g, init);
                let dt = cur_get(base, g1.temps, d.identifier)->0.datatype;
                let (g2, c) = g_conv(g1, v, ty(init), dt);
                emit(g2, PInstV::Copy { src: c, dst: PValV::Variable(d.identifier) })
            },
            None => g,
        }
    }
}

/// The instructions of a statement.
pub open spec fn g_stmt(g: GState, base: SymbolTable, s: StmtV) -> GState
    decreases s, 2int,
{
    match s.kind {
        StmtKindV::Return(e) => {
            let (g1, v) = g_expr(g, e);
            emit(g1, PInstV::Return(v))
        },
        StmtKindV::Expression(e) => g_expr(g, e).0,
        StmtKindV::Null => g,
        StmtKindV::If(..) => g_if(g, base, s),
        StmtKindV::Label(name, body) => g_stmt(emit(g, PInstV::Label(name)), base, *body),
        StmtKindV::Goto(name) => emit(g, PInstV::Jump(name)),
        StmtKindV::Compound(items) => g_items(g, base, items),
        StmtKindV::Break(lab) => emit(g, PInstV::Jump(label_of(kw_break(), lab))),
        StmtKindV::Continue(lab) => emit(g, PInstV::Jump(label_of(kw_cont(), lab))),
        StmtKindV::DoWhile { .. } | StmtKindV::While { .. } => g_loop(g, base, s),
        StmtKindV::For { .. } => g_for(g, base, s),
        StmtKindV::Switch { .. } => g_switch(g, base, s),
        StmtKindV::Case { lab, .. } => emit(g, PInstV::Label(label_of(kw_case(), lab))),
        StmtKindV::Default { lab } => emit(g, PInstV::Label(label_of(kw_default(), lab))),
    }
}

pub open spec fn g_if(g: GState, base: SymbolTable, s: StmtV) -> GState
    decreases s, 1int,
{
    match s.kind {
        StmtKindV::If(c, y, n) => {
            let (g1, cond) = new_var(g, ty(c));
            let (g2, eval) = g_expr(g1, c);
            let (g3, no_label) = new_label(g2);
            let g4 = emit(g3, PInstV::Copy { src: eval, dst: cond });
            let g5 = emit(g4, PInstV::JumpIfZero { condition: cond, identifier: no_label });
            let g6 = g_stmt(g5, base, *y);
            match n {
                Some(n) => {
                    let (g7, yes_label) = new_label(g6);
                    let g8 = emit(g7, PInstV::Jump(yes_label));
                    let g9 = emit(g8, PInstV::Label(no_label));
                    let g10 = g_stmt(g9, base, *n);
                    emit(g10, PInstV::Label(yes_label))
                },
                None => emit(g6, PInstV::Label(no_label)),
            }
        },
        _ => g,
    }
}

pub open spec fn g_loop(g: GState, base: SymbolTable, s: StmtV) -> GState
    decreases s, 1int,
{
    match s.kind {
        StmtKindV::DoWhile { body, cond, lab } => {
            let g1 = emit(g, PInstV::Label(label_of(kw_start(), lab)));
            let g2 = g_stmt(g1, base, *body);
            let g3 = emit(g2, PInstV::Label(label_of(kw_cont(), lab)));
            let (g4, res) = g_expr(g3, cond);
            let g5 = emit(g4, PInstV::JumpIfNotZero { condition: res, identifier: label_of(kw_start(), lab) });
            emit(g5, PInstV::Label(label_of(kw_break(), lab)))
        },
        StmtKindV::While { cond, body, lab } => {
            let g1 = emit(g, PInstV::Label(label_of(kw_cont(), lab)));
            let (g2, res) = g_expr(g1, cond);
            let g3 = emit(g2, PInstV::JumpIfZero { condition: res, identifier: label_of(kw_break(), lab) });
            let g4 = g_stmt(g3, base, *body);
            let g5 = emit(g4, PInstV::Jump(label_of(kw_cont(), lab)));
            emit(g5, PInstV::Label(label_of(kw_break(), lab)))
        },
        _ => g,
    }
}

pub open spec fn g_for(g: GState, base: SymbolTable, s: StmtV) -> GState
    decreases s, 1int,
{
    match s.kind {
        StmtKindV::For { init, cond, post, body, lab } => {
            let g1 = match init {
                ForInitV::InitExp(Some(e)) => g_expr(g, e).0,
                ForInitV::InitDec(d) => g_vdecl(g, base, d),
                _ => g,
            };
            let g2 = emit(g1, PInstV::Label(label_of(kw_start(), lab)));
            let g3 = match cond {
                Some(c) => {
                    let (ga, res) = g_expr(g2, c);
                    emit(ga, PInstV::JumpIfZero { condition: res, identifier: label_of(kw_break(), lab) })
                },
                None => g2,
            };
            let g4 = g_stmt(g3, base, *body);
            let g5 = emit(g4, PInstV::Label(label_of(kw_cont(), lab)));
            let g6 = match post {
                Some(p) => g_expr(g5, p).0,
                None => g5,
            };
            let g7 = emit(g6, PInstV::Jump(label_of(kw_start(), lab)));
            emit(g7, PInstV::Label(label_of(kw_break(), lab)))
        },
        _ => g,
    }
}

/// The comparisons of a switch: each case value against the scrutinee.
pub open spec fn g_case_tests(g: GState, scr: PValV, cases: Seq<(Option<ExprV>, Seq<char>)>) -> GState
    decreases cases.len(),
{
    if cases.len() == 0 {
        g
    } else {
        let g1 = match cases[0].0 {
            Some(value) => {
                let (ga, caseval) = g_expr(g, value);
                let (gb, cmp) = new_var(ga, ty(value));
                let gc = emit(gb, PInstV::Binary { op: PoiseBinaryOp::Equal, src1: caseval, src2: scr, dst: cmp });
                emit(gc, PInstV::JumpIfNotZero { condition: cmp, identifier: label_of(kw_case(), cases[0].1) })
            },
            None => g,
        };
        g_case_tests(g1, scr, cases.drop_first())
    }
}

/// The jumps to the default label of a switch.
pub open spec fn g_default_jumps(g: GState, cases: Seq<(Option<ExprV>, Seq<char>)>) -> GState
    decreases cases.len(),
{
    if cases.len() == 0 {
        g
    } else {
        let g1 = match cases[0].0 {
            Some(_) => g,
            None => emit(g, PInstV::Jump(label_of(kw_default(), cases[0].1))),
        };
        g_default_jumps(g1, cases.drop_first())
    }
}

pub open spec fn g_switch(g: GState, base: SymbolTable, s: StmtV) -> GState
    decreases s, 1int,
{
    match s.kind {
        StmtKindV::Switch { scrutinee, body, lab, cases } => {
            let (g1, scr) = g_expr(g, scrutinee);
            let g2 = g_case_tests(g1, scr, cases);
            let g3 = g_default_jumps(g2, cases);
            let g4 = emit(g3, PInstV::Jump(label_of(kw_break(), lab)));
            let g5 = g_stmt(g4, base, *body);
            emit(g5, PInstV::Label(label_of(kw_break(), lab)))
        },
        _ => g,
    }
}

/// The instructions of the items of a block, in order; nested function
/// declarations give none.
pub open spec fn g_items(g: GState, base: SymbolTable, items: Seq<BlockItemV>) -> GState
    decreases items, 3int,
{
    if items.len() == 0 {
        g
    } else {
        g_items(g_item(g, base, items[0]), base, items.subrange(1, items.len() as int))
    }
}

pub open spec fn g_item(g: GState, base: SymbolTable, item: BlockItemV) -> GState
    decreases item, 3int,
{
    match item {
        BlockItemV::S(s) => g_stmt(g, base, s),
        BlockItemV::D(DeclV::VarDecl(d)) => g_vdecl(g, base, d),
        BlockItemV::D(DeclV::FuncDecl(_)) => g,
    }
}


/// The local declarations the generator handles: one with an initializer
/// names a recorded variable of scalar type, and its initializer is typed
/// unless the variable is static (and not named like a temporary).
pub open spec fn var_ok(d: VarDeclV, base: SymbolTable) -> bool {
    d.init is Some ==> {
        let sym = base.spec_get(d.identifier);
        &&& sym is Some
        &&& scalar(sym->0.datatype)
        &&& (gen_ok(d.init->0) || (sym->0.attrs is StaticAttr && !has_tmp_prefix(d.identifier)))
    }
}

/// Every case value of a switch is an expression the generator handles.
pub open spec fn cases_ok(cases: Seq<(Option<ExprV>, Seq<char>)>) -> bool {
    forall|i: int| 0 <= i < cases.len() && (#[trigger] cases[i]).0 is Some ==> gen_ok(cases[i].0->0)
}

/// The statements the generator handles.
pub open spec fn stmt_ok(s: StmtV, base: SymbolTable) -> bool
    decreases s,
{
    match s.kind {
        StmtKindV::Return(e) | StmtKindV::Expression(e) => gen_ok(e),
        StmtKindV::If(c, y, n) => gen_ok(c) && stmt_ok(*y, base) && match n {
            Some(n) => stmt_ok(*n, base),
            None => true,
        },
        StmtKindV::Compound(items) => items_ok(items, base),
        StmtKindV::Label(_, b) => stmt_ok(*b, base),
        StmtKindV::While { cond, body, .. } | StmtKindV::DoWhile { body, cond, .. } => gen_ok(cond) && stmt_ok(
            *body,
            base,
        ),
        StmtKindV::For { init, cond, post, body, .. } => {
            &&& match init {
                ForInitV::InitDec(d) => var_ok(d, base),
                ForInitV::InitExp(Some(e)) => gen_ok(e),
                _ => true,
            }
            &&& (cond is Some ==> gen_ok(cond->0))
            &&& (post is Some ==> gen_ok(post->0))
            &&& stmt_ok(*body, base)
        },
        StmtKindV::Switch { scrutinee, body, cases, .. } => gen_ok(scrutinee) && cases_ok(cases) && stmt_ok(
            *body,
            base,
        ),
        _ => true,
    }
}

pub open spec fn items_ok(items: Seq<BlockItemV>, base: SymbolTable) -> bool
    decreases items,
{
    items.len() == 0 || (item_ok(items[0], base) && items_ok(items.subrange(1, items.len() as int), base))
}

pub open spec fn item_ok(item: BlockItemV, base: SymbolTable) -> bool
    decreases item,
{
    match item {
        BlockItemV::S(s) => stmt_ok(s, base),
        BlockItemV::D(DeclV::VarDecl(d)) => var_ok(d, base),
        BlockItemV::D(DeclV::FuncDecl(_)) => true,
    }
}

pub open spec fn opt_esize(e: Option<ExprV>) -> nat {
    match e {
        Some(e) => esize(e),
        None => 0,
    }
}

pub open spec fn vsize(d: VarDeclV) -> nat {
    1 + opt_esize(d.init)
}

pub open spec fn init_size(init: ForInitV) -> nat {
    match init {
        ForInitV::InitDec(d) => vsize(d),
        ForInitV::InitExp(e) => opt_esize(e),
    }
}

pub open spec fn csize(cases: Seq<(Option<ExprV>, Seq<char>)>) -> nat
    decreases cases.len(),
{
    if cases.len() == 0 {
        0
    } else {
        (if cases[0].0 is Some { 1 + esize(cases[0].0->0) } else { 0 }) + csize(cases.drop_first())
    }
}

/// A bound on the temporaries and labels a statement needs, half of each.
pub open spec fn ssize(s: StmtV) -> nat
    decreases s,
{
    1 + match s.kind {
        StmtKindV::Return(e) | StmtKindV::Expression(e) => esize(e),
        StmtKindV::If(c, y, n) => 1 + esize(c) + ssize(*y) + match n {
            Some(n) => ssize(*n),
            None => 0,
        },
        StmtKindV::Compound(items) => isize(items),
        StmtKindV::Label(_, b) => ssize(*b),
        StmtKindV::While { cond, body, .. } | StmtKindV::DoWhile { body, cond, .. } => esize(cond) + ssize(*body),
        StmtKindV::For { init, cond, post, body, .. } => init_size(init) + opt_esize(cond) + opt_esize(post) + ssize(
            *body,
        ),
        StmtKindV::Switch { scrutinee, body, cases, .. } => esize(scrutinee) + csize(cases) + ssize(*body),
        _ => 0,
    }
}

pub open spec fn isize(items: Seq<BlockItemV>) -> nat
    decreases items,
{
    if items.len() == 0 {
        0
    } else {
        item_size(items[0]) + isize(items.subrange(1, items.len() as int))
    }
}

pub open spec fn item_size(item: BlockItemV) -> nat
    decreases item,
{
    match item {
        BlockItemV::S(s) => ssize(s),
        BlockItemV::D(DeclV::VarDecl(d)) => vsize(d),
        BlockItemV::D(DeclV::FuncDecl(_)) => 0,
    }
}


/// The texts of the label kinds.
proof fn lemma_keywords()
    ensures
        "break"@ == kw_break(),
        "cont"@ == kw_cont(),
        "start"@ == kw_start(),
        "case"@ == kw_case(),
        "default"@ == kw_default(),
{
    reveal_strlit("break");
    reveal_strlit("cont");
    reveal_strlit("start");
    reveal_strlit("case");
    reveal_strlit("default");
    assert("break"@ =~= kw_break());
    assert("cont"@ =~= kw_cont());
    assert("start"@ =~= kw_start());
    assert("case"@ =~= kw_case());
    assert("default"@ =~= kw_default());
}

/// `labtype`, an underscore and `lab`.
fn loop_label_string(lab: &String, labtype: &str) -> (r: String)
    ensures
        r@ == label_of(labtype@, lab@),
{
    let mut v = chars_of(&labtype.to_owned());
    v.push('_');
    let l = chars_of(lab);
    let ghost start = v@;
    let mut i: usize = 0;
    while i < l.len()
        invariant
            i <= l@.len(),
            v@ == start + l@.subrange(0, i as int),
        decreases l@.len() - i,
    {
        v.push(l[i]);
        i = i + 1;
        assert(v@ =~= start + l@.subrange(0, i as int));
    }
    assert(l@.subrange(0, i as int) =~= l@);
    string_from_chars(&v)
}

/// A local declaration: the initializer of a non-static variable, converted
/// and copied into it.
fn gen_inst_var_declaration(
    declaration: &VarDeclaration,
    instructions: &mut Vec<PoiseInstruction>,
    symbols: &mut SymbolTable,
    count: &mut TmpCount,
)
    requires
        var_ok(declaration@, old(count).base@),
        tables_agree(*old(count), *old(symbols)),
        old(count).var_counter + 2 * vsize(declaration@) <= usize::MAX,
        old(count).label_counter + 2 * vsize(declaration@) <= usize::MAX,
    ensures
        state_of(*final(count), final(instructions)@) == g_vdecl(
            state_of(*old(count), old(instructions)@),
            old(count).base@,
            declaration@,
        ),
        tables_agree(*final(count), *final(symbols)),
        final(count).base == old(count).base,
        old(count).var_counter <= final(count).var_counter <= old(count).var_counter + 2 * vsize(declaration@),
        old(count).label_counter <= final(count).label_counter <= old(count).label_counter + 2 * vsize(declaration@),
{
    let ghost base = count.base@;
    let ghost g0 = state_of(*count, instructions@);
    proof {
        lemma_last_temp(count.temps@, declaration.identifier@);
    }
    match symbols.get(&declaration.identifier) {
        Some(sym) => {
            if matches!(sym.attrs, IdentAttrs::StaticAttr { .. }) {
                return;
            }
        },
        None => {},
    }
    match &declaration.init {
        Some(exp) => {
            let val = emit_expr_result(exp, instructions, symbols, count);
            let s = get_type(exp);
            proof {
                lemma_last_temp(count.temps@, declaration.identifier@);
            }
            let d = match symbols.get(&declaration.identifier) {
                Some(sym) => clone_type(&sym.datatype),
                None => vstd::pervasive::unreached(),
            };
            let conv = emit_type_conversion(val, &s, &d, instructions, symbols, count);
            push_inst(instructions, PoiseInstruction::Copy { src: conv, dst: PoiseVal::Variable(declaration.identifier.clone()) });
        },
        None => {},
    }
}


/// The instructions of a statement.
fn gen_inst_statement(
    statement: &Statement,
    instructions: &mut Vec<PoiseInstruction>,
    symbols: &mut SymbolTable,
    count: &mut TmpCount,
)
    requires
        stmt_ok(statement@, old(count).base@),
        tables_agree(*old(count), *old(symbols)),
        old(count).var_counter + 2 * ssize(statement@) <= usize::MAX,
        old(count).label_counter + 2 * ssize(statement@) <= usize::MAX,
    ensures
        state_of(*final(count), final(instructions)@) == g_stmt(
            state_of(*old(count), old(instructions)@),
            old(count).base@,
            statement@,
        ),
        tables_agree(*final(count), *final(symbols)),
        final(count).base == old(count).base,
        old(count).var_counter <= final(count).var_counter <= old(count).var_counter + 2 * ssize(statement@),
        old(count).label_counter <= final(count).label_counter <= old(count).label_counter + 2 * ssize(statement@),
    decreases statement, 2int,
{
    match &statement.kind {
        StatementKind::Return(expression) => {
            let val = emit_expr_result(expression, instructions, symbols, count);
            push_inst(instructions, PoiseInstruction::Return(val));
        },
        StatementKind::Expression(expression) => {
            emit_expr_result(expression, instructions, symbols, count);
        },
        StatementKind::Null => {},
        StatementKind::If(..) => gen_if(statement, instructions, symbols, count),
        StatementKind::Label(name, body) => {
            push_inst(instructions, PoiseInstruction::Label(name.clone()));
            gen_inst_statement(body, instructions, symbols, count);
        },
        StatementKind::Goto(name) => push_inst(instructions, PoiseInstruction::Jump(name.clone())),
        StatementKind::Compound(block) => gen_inst_block(block, instructions, symbols, count),
        StatementKind::Break(lab) => {
            proof {
                lemma_keywords();
            }
            push_inst(instructions, PoiseInstruction::Jump(loop_label_string(lab, "break")));
        },
        StatementKind::Continue(lab) => {
            proof {
                lemma_keywords();
            }
            push_inst(instructions, PoiseInstruction::Jump(loop_label_string(lab, "cont")));
        },
        StatementKind::DoWhile { .. } | StatementKind::While { .. } => gen_loop(statement, instructions, symbols, count),
        StatementKind::For { .. } => gen_for(statement, instructions, symbols, count),
        StatementKind::Switch { .. } => gen_switch(statement, instructions, symbols, count),
        StatementKind::Case { lab, .. } => {
            proof {
                lemma_keywords();
            }
            push_inst(instructions, PoiseInstruction::Label(loop_label_string(lab, "case")));
        },
        StatementKind::Default { lab } => {
            proof {
                lemma_keywords();
            }
            push_inst(instructions, PoiseInstruction::Label(loop_label_string(lab, "default")));
        },
    }
}

fn gen_if(
    statement: &Statement,
    instructions: &mut Vec<PoiseInstruction>,
    symbols: &mut SymbolTable,
    count: &mut TmpCount,
)
    requires
        stmt_ok(statement@, old(count).base@),
        tables_agree(*old(count), *old(symbols)),
        old(count).var_counter + 2 * ssize(statement@) <= usize::MAX,
        old(count).label_counter + 2 * ssize(statement@) <= usize::MAX,
        statement.kind is If,
    ensures
        state_of(*final(count), final(instructions)@) == g_if(
            state_of(*old(count), old(instructions)@),
            old(count).base@,
            statement@,
        ),
        tables_agree(*final(count), *final(symbols)),
        final(count).base == old(count).base,
        old(count).var_counter <= final(count).var_counter <= old(count).var_counter + 2 * ssize(statement@),
        old(count).label_counter <= final(count).label_counter <= old(count).label_counter + 2 * ssize(statement@),
    decreases statement, 1int,
{
    match &statement.kind {
        StatementKind::If(c, y, n) => {
            let cond = count.new_var(get_type(c), symbols, Ghost(instructions@));
            let eval = emit_expr_result(c, instructions, symbols, count);
            let no_label = count.new_label_string();
            push_inst(instructions, PoiseInstruction::Copy { src: eval, dst: cond.duplicate() });
            push_inst(instructions, PoiseInstruction::JumpIfZero { condition: cond, identifier: no_label.clone() });
            gen_inst_statement(y, instructions, symbols, count);
            match n {
                Some(n) => {
                    let yes_label = count.new_label_string();
                    push_inst(instructions, PoiseInstruction::Jump(yes_label.clone()));
                    push_inst(instructions, PoiseInstruction::Label(no_label));
                    gen_inst_statement(n, instructions, symbols, count);
                    push_inst(instructions, PoiseInstruction::Label(yes_label));
                },
                None => {
                    push_inst(instructions, PoiseInstruction::Label(no_label));
                },
            }
        },
        _ => vstd::pervasive::unreached(),
    }
}

fn gen_loop(
    statement: &Statement,
    instructions: &mut Vec<PoiseInstruction>,
    symbols: &mut SymbolTable,
    count: &mut TmpCount,
)
    requires
        stmt_ok(statement@, old(count).base@),
        tables_agree(*old(count), *old(symbols)),
        old(count).var_counter + 2 * ssize(statement@) <= usize::MAX,
        old(count).label_counter + 2 * ssize(statement@) <= usize::MAX,
        statement.kind is While || statement.kind is DoWhile,
    ensures
        state_of(*final(count), final(instructions)@) == g_loop(
            state_of(*old(count), old(instructions)@),
            old(count).base@,
            statement@,
        ),
        tables_agree(*final(count), *final(symbols)),
        final(count).base == old(count).base,
        old(count).var_counter <= final(count).var_counter <= old(count).var_counter + 2 * ssize(statement@),
        old(count).label_counter <= final(count).label_counter <= old(count).label_counter + 2 * ssize(statement@),
    decreases statement, 1int,
{
    proof {
        lemma_keywords();
    }
    match &statement.kind {
        StatementKind::DoWhile { body, cond, lab } => {
            push_inst(instructions, PoiseInstruction::Label(loop_label_string(lab, "start")));
            gen_inst_statement(body, instructions, symbols, count);
            push_inst(instructions, PoiseInstruction::Label(loop_label_string(lab, "cont")));
            let res = emit_expr_result(cond, instructions, symbols, count);
            push_inst(
                instructions,
                PoiseInstruction::JumpIfNotZero { condition: res, identifier: loop_label_string(lab, "start") },
            );
            push_inst(instructions, PoiseInstruction::Label(loop_label_string(lab, "break")));
        },
        StatementKind::While { cond, body, lab } => {
            push_inst(instructions, PoiseInstruction::Label(loop_label_string(lab, "cont")));
            let res = emit_expr_result(cond, instructions, symbols, count);
            push_inst(
                instructions,
                PoiseInstruction::JumpIfZero { condition: res, identifier: loop_label_string(lab, "break") },
            );
            gen_inst_statement(body, instructions, symbols, count);
            push_inst(instructions, PoiseInstruction::Jump(loop_label_string(lab, "cont")));
            push_inst(instructions, PoiseInstruction::Label(loop_label_string(lab, "break")));
        },
        _ => vstd::pervasive::unreached(),
    }
}

fn gen_for(
    statement: &Statement,
    instructions: &mut Vec<PoiseInstruction>,
    symbols: &mut SymbolTable,
    count: &mut TmpCount,
)
    requires
        stmt_ok(statement@, old(count).base@),
        tables_agree(*old(count), *old(symbols)),
        old(count).var_counter + 2 * ssize(statement@) <= usize::MAX,
        old(count).label_counter + 2 * ssize(statement@) <= usize::MAX,
        statement.kind is For,
    ensures
        state_of(*final(count), final(instructions)@) == g_for(
            state_of(*old(count), old(instructions)@),
            old(count).base@,
            statement@,
        ),
        tables_agree(*final(count), *final(symbols)),
        final(count).base == old(count).base,
        old(count).var_counter <= final(count).var_counter <= old(count).var_counter + 2 * ssize(statement@),
        old(count).label_counter <= final(count).label_counter <= old(count).label_counter + 2 * ssize(statement@),
    decreases statement, 1int,
{
    proof {
        lemma_keywords();
    }
    match &statement.kind {
        StatementKind::For { init, cond, post, body, lab } => {
            match init {
                ForInit::InitExp(Some(exp)) => {
                    emit_expr_result(exp, instructions, symbols, count);
                },
                ForInit::InitDec(dec) => gen_inst_var_declaration(dec, instructions, symbols, count),
                _ => {},
            }
            push_inst(instructions, PoiseInstruction::Label(loop_label_string(lab, "start")));
            match cond {
                Some(cond) => {
                    let res = emit_expr_result(cond, instructions, symbols, count);
                    push_inst(
                        instructions,
                        PoiseInstruction::JumpIfZero { condition: res, identifier: loop_label_string(lab, "break") },
                    );
                },
                None => {},
            }
            gen_inst_statement(body, instructions, symbols, count);
            push_inst(instructions, PoiseInstruction::Label(loop_label_string(lab, "cont")));
            match post {
                Some(post) => {
                    emit_expr_result(post, instructions, symbols, count);
                },
                None => {},
            }
            push_inst(instructions, PoiseInstruction::Jump(loop_label_string(lab, "start")));
            push_inst(instructions, PoiseInstruction::Label(loop_label_string(lab, "break")));
        },
        _ => vstd::pervasive::unreached(),
    }
}


fn gen_switch(
    statement: &Statement,
    instructions: &mut Vec<PoiseInstruction>,
    symbols: &mut SymbolTable,
    count: &mut TmpCount,
)
    requires
        statement.kind is Switch,
        stmt_ok(statement@, old(count).base@),
        tables_agree(*old(count), *old(symbols)),
        old(count).var_counter + 2 * ssize(statement@) <= usize::MAX,
        old(count).label_counter + 2 * ssize(statement@) <= usize::MAX,
    ensures
        state_of(*final(count), final(instructions)@) == g_switch(
            state_of(*old(count), old(instructions)@),
            old(count).base@,
            statement@,
        ),
        tables_agree(*final(count), *final(symbols)),
        final(count).base == old(count).base,
        old(count).var_counter <= final(count).var_counter <= old(count).var_counter + 2 * ssize(statement@),
        old(count).label_counter <= final(count).label_counter <= old(count).label_counter + 2 * ssize(statement@),
    decreases statement, 1int,
{
    proof {
        lemma_keywords();
    }
    match &statement.kind {
        StatementKind::Switch { scrutinee, body, lab, cases } => {
            let ghost cv = cases_view(cases@);
            let ghost vb = old(count).var_counter + 2 * ssize(statement@);
            let ghost lb = old(count).label_counter + 2 * ssize(statement@);
            let scr = emit_expr_result(scrutinee, instructions, symbols, count);
            let ghost g1 = state_of(*count, instructions@);
            assert(cv.subrange(0, cv.len() as int) =~= cv);
            let mut i: usize = 0;
            while i < cases.len()
                invariant
                    i <= cases@.len(),
                    cv == cases_view(cases@),
                    cv.len() == cases@.len(),
                    cases_ok(cv),
                    statement.kind is Switch && statement.kind->Switch_cases == *cases,
                    g_case_tests(g1, scr@, cv) == g_case_tests(state_of(*count, instructions@), scr@, cv.subrange(i as int, cv.len() as int)),
                    tables_agree(*count, *symbols),
                    count.base == old(count).base,
                    count.var_counter + 2 * csize(cv.subrange(i as int, cv.len() as int)) + 2 * ssize(body@) + 2 <= vb,
                    count.label_counter + 2 * csize(cv.subrange(i as int, cv.len() as int)) + 2 * ssize(body@) + 2 <= lb,
                    old(count).var_counter <= count.var_counter,
                    old(count).label_counter <= count.label_counter,
                    vb <= usize::MAX,
                    lb <= usize::MAX,
                decreases cases@.len() - i,
            {
                proof {
                    lemma_keywords();
                }
                let ghost sub = cv.subrange(i as int, cv.len() as int);
                assert(sub[0] == cv[i as int]);
                assert(sub.drop_first() =~= cv.subrange(i + 1, cv.len() as int));
                assert(cv[i as int] == (opt_expr_view(cases@[i as int].0), cases@[i as int].1@));
                match &cases[i].0 {
                    Some(value) => {
                        assert(gen_ok(value@));
                        let caseval = emit_expr_result(value, instructions, symbols, count);
                        let matched = count.new_var(get_type(value), symbols, Ghost(instructions@));
                        push_inst(
                            instructions,
                            PoiseInstruction::Binary {
                                op: PoiseBinaryOp::Equal,
                                src1: caseval,
                                src2: scr.duplicate(),
                                dst: matched.duplicate(),
                            },
                        );
                        push_inst(
                            instructions,
                            PoiseInstruction::JumpIfNotZero { condition: matched, identifier: loop_label_string(&cases[i].1, "case") },
                        );
                    },
                    None => {},
                }
                i = i + 1;
            }
            assert(cv.subrange(i as int, cv.len() as int) =~= Seq::<(Option<ExprV>, Seq<char>)>::empty());
            let ghost g2 = state_of(*count, instructions@);
            let mut i: usize = 0;
            while i < cases.len()
                invariant
                    i <= cases@.len(),
                    cv == cases_view(cases@),
                    cv.len() == cases@.len(),
                    g_default_jumps(g2, cv) == g_default_jumps(state_of(*count, instructions@), cv.subrange(i as int, cv.len() as int)),
                decreases cases@.len() - i,
            {
                proof {
                    lemma_keywords();
                }
                let ghost sub = cv.subrange(i as int, cv.len() as int);
                assert(sub[0] == cv[i as int]);
                assert(sub.drop_first() =~= cv.subrange(i + 1, cv.len() as int));
                assert(cv[i as int] == (opt_expr_view(cases@[i as int].0), cases@[i as int].1@));
                match &cases[i].0 {
                    Some(_) => {},
                    None => {
                        push_inst(instructions, PoiseInstruction::Jump(loop_label_string(&cases[i].1, "default")));
                    },
                }
                i = i + 1;
            }
            assert(cv.subrange(i as int, cv.len() as int) =~= Seq::<(Option<ExprV>, Seq<char>)>::empty());
            push_inst(instructions, PoiseInstruction::Jump(loop_label_string(lab, "break")));
            gen_inst_statement(body, instructions, symbols, count);
            push_inst(instructions, PoiseInstruction::Label(loop_label_string(lab, "break")));
        },
        _ => vstd::pervasive::unreached(),
    }
}

/// The instructions of the items of a block, in order.
#[verifier::rlimit(40)]
fn gen_inst_block(
    block: &Block,
    instructions: &mut Vec<PoiseInstruction>,
    symbols: &mut SymbolTable,
    count: &mut TmpCount,
)
    requires
        items_ok(items_view(block.items@), old(count).base@),
        tables_agree(*old(count), *old(symbols)),
        old(count).var_counter + 2 * isize(items_view(block.items@)) <= usize::MAX,
        old(count).label_counter + 2 * isize(items_view(block.items@)) <= usize::MAX,
    ensures
        state_of(*final(count), final(instructions)@) == g_items(
            state_of(*old(count), old(instructions)@),
            old(count).base@,
            items_view(block.items@),
        ),
        tables_agree(*final(count), *final(symbols)),
        final(count).base == old(count).base,
        old(count).var_counter <= final(count).var_counter <= old(count).var_counter + 2 * isize(items_view(block.items@)),
        old(count).label_counter <= final(count).label_counter <= old(count).label_counter + 2 * isize(items_view(block.items@)),
    decreases block, 3int,
{
    let ghost iv = items_view(block.items@);
    let ghost base = count.base@;
    let ghost g0 = state_of(*count, instructions@);
    proof {
        lemma_items_view(block.items@);
        assert(iv.subrange(0, iv.len() as int) =~= iv);
    }
    let mut i: usize = 0;
    while i < block.items.len()
        invariant
            i <= block.items@.len(),
            iv == items_view(block.items@),
            iv.len() == block.items@.len(),
            forall|j: int| 0 <= j < block.items@.len() ==> #[trigger] iv[j] == block.items@[j]@,
            base == old(count).base@,
            items_ok(iv.subrange(i as int, iv.len() as int), base),
            g_items(g0, base, iv) == g_items(state_of(*count, instructions@), base, iv.subrange(i as int, iv.len() as int)),
            tables_agree(*count, *symbols),
            count.base == old(count).base,
            count.var_counter + 2 * isize(iv.subrange(i as int, iv.len() as int)) <= old(count).var_counter + 2 * isize(iv),
            count.label_counter + 2 * isize(iv.subrange(i as int, iv.len() as int)) <= old(count).label_counter + 2 * isize(iv),
            old(count).var_counter <= count.var_counter,
            old(count).label_counter <= count.label_counter,
            old(count).var_counter + 2 * isize(iv) <= usize::MAX,
            old(count).label_counter + 2 * isize(iv) <= usize::MAX,
        decreases block.items@.len() - i,
    {
        proof {
            vstd::std_specs::vec::axiom_vec_index_decreases(block.items, i as int);
        }
        let ghost sub = iv.subrange(i as int, iv.len() as int);
        assert(sub[0] == iv[i as int]);
        assert(sub.subrange(1, sub.len() as int) =~= iv.subrange(i + 1, iv.len() as int));
        assert(isize(sub) == item_size(iv[i as int]) + isize(iv.subrange(i + 1, iv.len() as int)));
        let ghost gs = state_of(*count, instructions@);
        assert(g_items(gs, base, sub) == g_items(g_item(gs, base, iv[i as int]), base, iv.subrange(i + 1, iv.len() as int)));
        assert(item_ok(iv[i as int], base));
        assert(iv[i as int] == item_view(block.items@[i as int]));
        match &block.items[i] {
            BlockItem::S(st) => {
                proof {
                    assert(decreases_to!(*block => *st));
                    assert(stmt_ok(st@, base));
                }
                gen_inst_statement(st, instructions, symbols, count);
            },
            BlockItem::D(Decl::VarDecl(d)) => {
                assert(var_ok(d@, base));
                gen_inst_var_declaration(d, instructions, symbols, count);
            },
            BlockItem::D(Decl::FuncDecl(_)) => {},
        }
        i = i + 1;
    }
    assert(iv.subrange(i as int, iv.len() as int) =~= Seq::<BlockItemV>::empty());
}


/// A defined function: its body's instructions and a final `return 0`,
/// and whether the symbol table makes it global.
pub open spec fn g_func(g: GState, base: SymbolTable, f: FuncDeclV) -> (GState, PoiseFuncV) {
    let g1 = g_items(GState { insts: Seq::empty(), ..g }, base, f.body->0);
    let g2 = emit(g1, PInstV::Return(PValV::Constant(ConstV::Int(0))));
    let sym = cur_get(base, g2.temps, f.identifier);
    (
        g2,
        PoiseFuncV {
            identifier: f.identifier,
            global: sym is Some && sym->0.attrs.spec_is_global(),
            params: f.params,
            body: g2.insts,
        },
    )
}

/// The functions defined among `decls`, in order, sharing one state.
pub open spec fn g_funcs(g: GState, base: SymbolTable, decls: Seq<DeclV>) -> (GState, Seq<TopLevelItemV>)
    decreases decls.len(),
{
    if decls.len() == 0 {
        (g, Seq::empty())
    } else {
        let (g1, head) = match decls[0] {
            DeclV::FuncDecl(f) => if f.body is Some {
                let (ga, pf) = g_func(g, base, f);
                (ga, seq![TopLevelItemV::F(pf)])
            } else {
                (g, Seq::empty())
            },
            _ => (g, Seq::empty()),
        };
        let (g2, rest) = g_funcs(g1, base, decls.drop_first());
        (g2, head + rest)
    }
}

/// The initial value of a tentatively defined static of type `t`: zero.
pub open spec fn zero_init(t: TypeV) -> StaticInitV {
    match t {
        TypeV::Int => StaticInitV::IntInit(0),
        TypeV::Long => StaticInitV::LongInit(0),
        TypeV::UInt => StaticInitV::UIntInit(0),
        TypeV::Double => StaticInitV::DoubleInit(seq!['0', '.', '0']),
        _ => StaticInitV::ULongInit(0),
    }
}

/// The static objects the entries define, in the order of the entries.
pub open spec fn static_items(ps: Seq<(Seq<char>, SymbolV)>) -> Seq<TopLevelItemV>
    decreases ps.len(),
{
    if ps.len() == 0 {
        Seq::empty()
    } else {
        let (k, v) = ps.last();
        static_items(ps.drop_last()) + match v.attrs {
            IdentAttrsV::StaticAttr { init: InitialValueV::Initial(i), global } => seq![
                TopLevelItemV::V(PoiseStaticVarV { identifier: k, global, datatype: v.datatype, init: i }),
            ],
            IdentAttrsV::StaticAttr { init: InitialValueV::Tentative, global } => seq![
                TopLevelItemV::V(
                    PoiseStaticVarV { identifier: k, global, datatype: v.datatype, init: zero_init(v.datatype) },
                ),
            ],
            _ => Seq::empty(),
        }
    }
}

pub open spec fn decl_ok(d: DeclV, base: SymbolTable) -> bool {
    match d {
        DeclV::FuncDecl(f) => f.body is Some ==> items_ok(f.body->0, base),
        _ => true,
    }
}

/// A bound on the temporaries and labels of the functions defined among `decls`, half of each.
pub open spec fn psize(decls: Seq<DeclV>) -> nat
    decreases decls.len(),
{
    if decls.len() == 0 {
        0
    } else {
        (match decls[0] {
            DeclV::FuncDecl(f) => if f.body is Some { isize(f.body->0) } else { 0 },
            _ => 0,
        }) + psize(decls.drop_first())
    }
}


/// The zero of type `t`, as a static initial value.
fn zero_static_init(t: &Type) -> (r: StaticInit)
    ensures
        r@ == zero_init(t@),
{
    match t {
        Type::Int => StaticInit::IntInit(0),
        Type::Long => StaticInit::LongInit(0),
        Type::UInt => StaticInit::UIntInit(0),
        Type::Double => {
            let mut v: Vec<char> = Vec::new();
            v.push('0');
            v.push('.');
            v.push('0');
            assert(v@ =~= seq!['0', '.', '0']);
            StaticInit::DoubleInit(string_from_chars(&v))
        },
        _ => StaticInit::ULongInit(0),
    }
}

/// The static objects the symbol table defines: those with an initial
/// value, and the tentative ones, set to zero.
fn gen_static_symbols(symbols: &SymbolTable) -> (r: Vec<TopLevelItem>)
    ensures
        tops_view(r@) == static_items(symbols.pairs()),
{
    let mut defs: Vec<TopLevelItem> = Vec::new();
    let ghost ps = symbols.pairs();
    let mut i: usize = 0;
    while i < symbols.len()
        invariant
            i <= ps.len(),
            ps == symbols.pairs(),
            ps.len() == symbols.spec_len(),
            tops_view(defs@) == static_items(ps.subrange(0, i as int)),
        decreases ps.len() - i,
    {
        let k = symbols.name_at(i);
        let v = symbols.symbol_at(i);
        let ghost pre = ps.subrange(0, i as int);
        let ghost next = ps.subrange(0, i + 1);
        assert(next.drop_last() =~= pre);
        assert(next.last() == ps[i as int]);
        let ghost old_defs = defs@;
        match &v.attrs {
            IdentAttrs::StaticAttr { init, global } => match init {
                InitialValue::Initial(iv) => {
                    defs.push(
                        TopLevelItem::V(
                            PoiseStaticVar {
                                identifier: k.clone(),
                                datatype: clone_type(&v.datatype),
                                global: *global,
                                init: iv.duplicate(),
                            },
                        ),
                    );
                },
                InitialValue::Tentative => {
                    defs.push(
                        TopLevelItem::V(
                            PoiseStaticVar {
                                identifier: k.clone(),
                                datatype: clone_type(&v.datatype),
                                global: *global,
                                init: zero_static_init(&v.datatype),
                            },
                        ),
                    );
                },
                InitialValue::NoInitializer => {},
            },
            _ => {},
        }
        assert(tops_view(defs@) =~= static_items(next));
        i = i + 1;
    }
    assert(ps.subrange(0, i as int) =~= ps);
    defs
}


/// The intermediate form of a defined function.
fn gen_poisefunc(func: &FuncDeclaration, symbols: &mut SymbolTable, count: &mut TmpCount) -> (r: PoiseFunc)
    requires
        func.body is Some,
        items_ok(func@.body->0, old(count).base@),
        tables_agree(*old(count), *old(symbols)),
        old(count).var_counter + 2 * isize(func@.body->0) <= usize::MAX,
        old(count).label_counter + 2 * isize(func@.body->0) <= usize::MAX,
    ensures
        ({
            let (g, f) = g_func(state_of(*old(count), Seq::empty()), old(count).base@, func@);
            state_of(*final(count), r.body@) == g && r@ == f
        }),
        tables_agree(*final(count), *final(symbols)),
        final(count).base == old(count).base,
        old(count).var_counter <= final(count).var_counter <= old(count).var_counter + 2 * isize(func@.body->0),
        old(count).label_counter <= final(count).label_counter <= old(count).label_counter + 2 * isize(func@.body->0),
{
    let mut instructions: Vec<PoiseInstruction> = Vec::new();
    let identifier = func.identifier.clone();
    let mut params: Vec<String> = Vec::new();
    let mut i: usize = 0;
    while i < func.params.len()
        invariant
            i <= func.params@.len(),
            params@.len() == i,
            forall|j: int| 0 <= j < i ==> #[trigger] params@[j]@ == func.params@[j]@,
        decreases func.params@.len() - i,
    {
        params.push(func.params[i].clone());
        i = i + 1;
    }
    assert(params@.map_values(|p: String| p@) =~= func@.params);
    proof {
        assert(insts_view(instructions@) =~= Seq::<PInstV>::empty());
    }
    match &func.body {
        Some(b) => gen_inst_block(b, &mut instructions, symbols, count),
        None => vstd::pervasive::unreached(),
    }
    push_inst(&mut instructions, PoiseInstruction::Return(PoiseVal::Constant(Const::Int(0))));
    let global = match symbols.get(&identifier) {
        Some(sym) => sym.attrs.is_global(),
        None => false,
    };
    PoiseFunc { identifier, global, params, body: instructions }
}

/// What the functions give, and the temporaries they leave, do not depend
/// on the instructions of the state they start from.
proof fn lemma_g_funcs_insts(g: GState, h: GState, base: SymbolTable, ds: Seq<DeclV>)
    requires
        g.temps == h.temps,
        g.vc == h.vc,
        g.lc == h.lc,
    ensures
        g_funcs(g, base, ds).1 == g_funcs(h, base, ds).1,
        g_funcs(g, base, ds).0.temps == g_funcs(h, base, ds).0.temps,
    decreases ds.len(),
{
    if ds.len() > 0 {
        match ds[0] {
            DeclV::FuncDecl(f) => if f.body is Some {
                assert(GState { insts: Seq::empty(), ..g } == GState { insts: Seq::empty(), ..h });
                lemma_g_funcs_insts(g_func(g, base, f).0, g_func(h, base, f).0, base, ds.drop_first());
            } else {
                lemma_g_funcs_insts(g, h, base, ds.drop_first());
            },
            _ => {
                lemma_g_funcs_insts(g, h, base, ds.drop_first());
            },
        }
    }
}

/// The functions defined among `decls` that the generator handles.
pub open spec fn prog_ok(decls: Seq<DeclV>, base: SymbolTable) -> bool {
    forall|i: int| 0 <= i < decls.len() ==> decl_ok(#[trigger] decls[i], base)
}

/// The intermediate form of a checked program: its defined functions, in
/// order, then the static objects of the symbol table. The temporaries the
/// functions use are added to the table as locals.
pub fn gen_poise(tree: &Program, symbols: &mut SymbolTable) -> (r: PoiseProg)
    requires
        prog_ok(decls_view(tree.declarations@), *old(symbols)),
        2 * psize(decls_view(tree.declarations@)) <= usize::MAX,
    ensures
        ({
            let (g, funcs) = g_funcs(
                GState { insts: Seq::empty(), temps: Seq::empty(), vc: 0, lc: 0 },
                *old(symbols),
                decls_view(tree.declarations@),
            );
            &&& forall|n: Seq<char>| #[trigger] final(symbols).spec_get(n) == cur_get(*old(symbols), g.temps, n)
            &&& tops_view(r.top_level_items@) == funcs + static_items(final(symbols).pairs())
        }),
{
    let ghost base = *symbols;
    let ghost dv = decls_view(tree.declarations@);
    let mut count = TmpCount { var_counter: 0, label_counter: 0, temps: Ghost(Seq::empty()), base: Ghost(*symbols) };
    let ghost g0 = state_of(count, Seq::empty());
    assert(insts_view(Seq::<PoiseInstruction>::empty()) =~= Seq::<PInstV>::empty());
    assert(g0 == GState { insts: Seq::empty(), temps: Seq::empty(), vc: 0, lc: 0 });
    let ghost res = g_funcs(g0, base, dv);
    assert(dv.subrange(0, dv.len() as int) =~= dv);
    let mut top_level_items: Vec<TopLevelItem> = Vec::new();
    assert(tops_view(top_level_items@) =~= Seq::<TopLevelItemV>::empty());
    let mut i: usize = 0;
    while i < tree.declarations.len()
        invariant
            i <= tree.declarations@.len(),
            dv == decls_view(tree.declarations@),
            dv.len() == tree.declarations@.len(),
            base == count.base@,
            prog_ok(dv, base),
            res == g_funcs(g0, base, dv),
            ({
                let (g, fs) = g_funcs(state_of(count, Seq::empty()), base, dv.subrange(i as int, dv.len() as int));
                g.temps == res.0.temps && tops_view(top_level_items@) + fs == res.1
            }),
            tables_agree(count, *symbols),
            count.var_counter + 2 * psize(dv.subrange(i as int, dv.len() as int)) <= 2 * psize(dv),
            count.label_counter + 2 * psize(dv.subrange(i as int, dv.len() as int)) <= 2 * psize(dv),
            2 * psize(dv) <= usize::MAX,
        decreases tree.declarations@.len() - i,
    {
        let ghost sub = dv.subrange(i as int, dv.len() as int);
        assert(sub[0] == dv[i as int]);
        assert(sub.drop_first() =~= dv.subrange(i + 1, dv.len() as int));
        assert(decl_ok(dv[i as int], base));
        let ghost items_before = tops_view(top_level_items@);
        let ghost gs = state_of(count, Seq::empty());
        let ghost rest = dv.subrange(i + 1, dv.len() as int);
        assert(dv[i as int] == tree.declarations@[i as int]@);
        match &tree.declarations[i] {
            Decl::FuncDecl(f) => if f.body.is_some() {
                assert(psize(sub) == isize(f@.body->0) + psize(rest));
                let pf = gen_poisefunc(f, symbols, &mut count);
                top_level_items.push(TopLevelItem::F(pf));
                assert(tops_view(top_level_items@) =~= items_before + seq![TopLevelItemV::F(pf@)]);
                proof {
                    let g1 = g_func(gs, base, f@).0;
                    lemma_g_funcs_insts(state_of(count, Seq::empty()), g1, base, rest);
                    assert(seq![TopLevelItemV::F(pf@)] + g_funcs(g1, base, rest).1 == g_funcs(gs, base, sub).1);
                    assert(items_before + g_funcs(gs, base, sub).1 =~= tops_view(top_level_items@) + g_funcs(g1, base, rest).1);
                }
            } else {
                assert(Seq::<TopLevelItemV>::empty() + g_funcs(gs, base, rest).1 =~= g_funcs(gs, base, rest).1);
            },
            _ => {
                assert(Seq::<TopLevelItemV>::empty() + g_funcs(gs, base, rest).1 =~= g_funcs(gs, base, rest).1);
            },
        }
        i = i + 1;
    }
    assert(dv.subrange(i as int, dv.len() as int) =~= Seq::<DeclV>::empty());
    assert(tops_view(top_level_items@) + Seq::<TopLevelItemV>::empty() =~= tops_view(top_level_items@));
    let statics = gen_static_symbols(symbols);
    let ghost fv = tops_view(top_level_items@);
    let mut all = top_level_items;
    let mut rest = statics;
    all.append(&mut rest);
    assert(tops_view(all@) =~= fv + tops_view(statics@));
    PoiseProg { top_level_items: all }
}

} // verus!

verus! {

/// Law: each C binary operator that becomes a binary instruction becomes the
/// instruction that computes the same value: for all operands, the
/// instruction's value is the operator's (so `%` gives the remainder and
/// `/` the quotient).
pub proof fn lemma_bin_op_same_value(op: BinaryOp, a: i128, b: i128)
    requires
        !(op is LogicalAnd || op is LogicalOr || op is Assign || op is OpSet || op is Ternary),
    ensures
        poise_binary_value(bin_op(op), a, b) == c_binary_value(op, a, b),
{
}

/// Law: each C unary operator becomes the instruction that computes the
/// same value.
pub proof fn lemma_un_op_same_value(op: UnaryOp, a: int)
    ensures
        poise_unary_value(un_op(op), a) == c_unary_value(op, a),
{
}

} // verus!
