use vstd::prelude::*;

use crate::lexer::Span;
use crate::parser::ast::{
    Block, BlockItem, BlockItemV, Decl, DeclV, ForInit, ForInitV, Program, Statement, StatementKind, StmtKindV, StmtV,
    items_view, lemma_items_view, opt_expr_view, var_decl_view, clone_expr,
    FuncDeclV, FuncDeclaration, StorageClass, VarDeclV, VarDeclaration, is_extern, is_static, BinaryOp, Const, ConstV, ExprKindV, ExprV, Expression, ExpressionKind, UnaryOp, exprs_view,
    lemma_exprs_view, lemma_exprs_view_eq,
};
use crate::semanal::{SemanticError, SemanticErrorV};
use crate::semanal::switch_collector::{isz, itsz, ssz, unit_view};
use crate::parser::stmt::decls_view;
use crate::semanal::for_desugarer::cons_items;
use crate::types::{
    IdentAttrs, IdentAttrsV, InitialValue, InitialValueV, StaticInit, StaticInitV, Symbol, SymbolTable, Env, SymbolV, Type, TypeV,
    clone_type, lemma_params_view, params_view, type_eq,
};
use crate::text::string_from_chars;

verus! {

broadcast use vstd::std_specs::vec::group_vec_axioms, vstd::seq::group_seq_axioms;

/// The type of a constant.
pub open spec fn const_type(c: ConstV) -> TypeV {
    match c {
        ConstV::Int(_) => TypeV::Int,
        ConstV::Long(_) => TypeV::Long,
        ConstV::UInt(_) => TypeV::UInt,
        ConstV::ULong(_) => TypeV::ULong,
        ConstV::Double(_) => TypeV::Double,
    }
}

/// The 32-bit integer types.
pub open spec fn is_small(t: TypeV) -> bool {
    t is Int || t is UInt
}

/// The type two operands are converted to: `double` wins; of two integer
/// types of one size the unsigned one wins; otherwise the larger one.
pub open spec fn common_type(t1: TypeV, t2: TypeV) -> TypeV {
    if t1 == t2 {
        t1
    } else if t1 is Double || t2 is Double {
        TypeV::Double
    } else if is_small(t1) == is_small(t2) {
        if t1.spec_is_signed() {
            t2
        } else {
            t1
        }
    } else if is_small(t1) {
        t2
    } else {
        t1
    }
}

/// The common type of two arithmetic types does not depend on their order,
/// and is one of them.
pub proof fn lemma_common_type_commutes(t1: TypeV, t2: TypeV)
    requires
        t1.spec_is_arithmetic(),
        t2.spec_is_arithmetic(),
    ensures
        common_type(t1, t2) == common_type(t2, t1),
        common_type(t1, t2) == t1 || common_type(t1, t2) == t2,
{
}

/// Law: the usual arithmetic conversions. With a `double` operand the
/// common type is `double`; of two integer types it is an integer type as
/// wide as the wider one, signed only if both operands of that width are.
pub proof fn lemma_common_type_conversions(t1: TypeV, t2: TypeV)
    requires
        t1.spec_is_arithmetic(),
        t2.spec_is_arithmetic(),
    ensures
        (t1 is Double || t2 is Double) ==> common_type(t1, t2) is Double,
        (t1.spec_is_integer() && t2.spec_is_integer()) ==> {
            let c = common_type(t1, t2);
            &&& c.spec_is_integer()
            &&& c.spec_size() == if t1.spec_size() >= t2.spec_size() { t1.spec_size() } else { t2.spec_size() }
            &&& c.spec_is_signed() == if t1.spec_size() == t2.spec_size() {
                t1.spec_is_signed() && t2.spec_is_signed()
            } else if t1.spec_size() > t2.spec_size() {
                t1.spec_is_signed()
            } else {
                t2.spec_is_signed()
            }
        },
{
}

/// `e` as a value of type `t`: unchanged if it has that type, else under a cast.
pub open spec fn convert(e: ExprV, t: TypeV) -> ExprV {
    if e.ty == Some(t) {
        e
    } else {
        ExprV { kind: ExprKindV::Cast(t, Box::new(e)), ty: Some(t), span: e.span }
    }
}

/// The operators whose result has the operands' common type.
pub open spec fn is_arith_op(op: BinaryOp) -> bool {
    op is Add || op is Subtract || op is Multiply || op is Divide || op is Remainder
}

/// The type of a checked expression.
pub open spec fn type_of(e: ExprV) -> TypeV {
    e.ty->0
}

/// The typing of an expression: every node annotated with its type, and casts
/// inserted where an operand must change type; or the first error met. A
/// name the table does not hold is left as it is, untyped.
pub open spec fn typed_expr(syms: Env, e: ExprV) -> Result<ExprV, SemanticErrorV>
    decreases e,
{
    let span = e.span;
    match e.kind {
        ExprKindV::Constant(c) => Ok(ExprV { kind: e.kind, ty: Some(const_type(c)), span }),
        ExprKindV::Var(n) => match syms(n) {
            None => Ok(e),
            Some(sym) => if sym.datatype is FuncType {
                Err(SemanticErrorV::FuncUsedAsVar(n, span))
            } else {
                Ok(ExprV { kind: e.kind, ty: Some(sym.datatype), span })
            },
        },
        ExprKindV::Cast(t, inner) => match typed_expr(syms, *inner) {
            Err(x) => Err(x),
            Ok(i) => Ok(ExprV { kind: ExprKindV::Cast(t, Box::new(i)), ty: Some(t), span }),
        },
        ExprKindV::Assignment(l, r) => if l.kind is FunctionCall {
            Err(SemanticErrorV::FuncUsedAsVar(l.kind->FunctionCall_0, span))
        } else {
            match typed_expr(syms, *l) {
                Err(x) => Err(x),
                Ok(l2) => match typed_expr(syms, *r) {
                    Err(x) => Err(x),
                    Ok(r2) => Ok(
                        ExprV {
                            kind: ExprKindV::Assignment(Box::new(l2), Box::new(convert(r2, type_of(l2)))),
                            ty: Some(type_of(l2)),
                            span,
                        },
                    ),
                },
            }
        },
        ExprKindV::Unary(op, inner) => match typed_expr(syms, *inner) {
            Err(x) => Err(x),
            Ok(i) => if op == UnaryOp::Complement && type_of(i) == TypeV::Double {
                Err(SemanticErrorV::ComplementFloat(span))
            } else {
                Ok(
                    ExprV {
                        kind: ExprKindV::Unary(op, Box::new(i)),
                        ty: Some(if op == UnaryOp::Not { TypeV::Int } else { type_of(i) }),
                        span,
                    },
                )
            },
        },
        ExprKindV::Binary(op, l, r) => match typed_expr(syms, *l) {
            Err(x) => Err(x),
            Ok(l2) => match typed_expr(syms, *r) {
                Err(x) => Err(x),
                Ok(r2) => if op is LogicalAnd || op is LogicalOr {
                    Ok(ExprV { kind: ExprKindV::Binary(op, Box::new(l2), Box::new(r2)), ty: Some(TypeV::Int), span })
                } else if op is LeftShift || op is RightShift {
                    Ok(ExprV { kind: ExprKindV::Binary(op, Box::new(l2), Box::new(r2)), ty: Some(type_of(l2)), span })
                } else {
                    let ct = common_type(type_of(l2), type_of(r2));
                    if op is Remainder && ct == TypeV::Double {
                        Err(SemanticErrorV::RemainderFloat(span))
                    } else {
                        Ok(
                            ExprV {
                                kind: ExprKindV::Binary(op, Box::new(convert(l2, ct)), Box::new(convert(r2, ct))),
                                ty: Some(if is_arith_op(op) { ct } else { TypeV::Int }),
                                span,
                            },
                        )
                    }
                },
            },
        },
        ExprKindV::Conditional(c, a, b) => match typed_expr(syms, *a) {
            Err(x) => Err(x),
            Ok(a2) => match typed_expr(syms, *b) {
                Err(x) => Err(x),
                Ok(b2) => match typed_expr(syms, *c) {
                    Err(x) => Err(x),
                    Ok(c2) => {
                        let ct = common_type(type_of(a2), type_of(b2));
                        Ok(
                            ExprV {
                                kind: ExprKindV::Conditional(
                                    Box::new(c2),
                                    Box::new(convert(a2, ct)),
                                    Box::new(convert(b2, ct)),
                                ),
                                ty: Some(ct),
                                span,
                            },
                        )
                    },
                },
            },
        },
        ExprKindV::FunctionCall(n, args) => match syms(n) {
            None => Ok(e),
            Some(sym) => match sym.datatype {
                TypeV::FuncType(ps, ret) => if ps.len() != args.len() {
                    Err(SemanticErrorV::FuncCalledWithWrongNumArgs(n, span))
                } else {
                    match typed_args(syms, args, ps) {
                        Err(x) => Err(x),
                        Ok(a2) => Ok(ExprV { kind: ExprKindV::FunctionCall(n, a2), ty: Some(*ret), span }),
                    }
                },
                _ => Err(SemanticErrorV::VarCalledAsFunc(n, span)),
            },
        },
        ExprKindV::PrefixIncrement(inner) => match typed_expr(syms, *inner) {
            Err(x) => Err(x),
            Ok(i) => Ok(ExprV { kind: ExprKindV::PrefixIncrement(Box::new(i)), ty: i.ty, span }),
        },
        ExprKindV::PostfixIncrement(inner) => match typed_expr(syms, *inner) {
            Err(x) => Err(x),
            Ok(i) => Ok(ExprV { kind: ExprKindV::PostfixIncrement(Box::new(i)), ty: i.ty, span }),
        },
        ExprKindV::PrefixDecrement(inner) => match typed_expr(syms, *inner) {
            Err(x) => Err(x),
            Ok(i) => Ok(ExprV { kind: ExprKindV::PrefixDecrement(Box::new(i)), ty: i.ty, span }),
        },
        ExprKindV::PostfixDecrement(inner) => match typed_expr(syms, *inner) {
            Err(x) => Err(x),
            Ok(i) => Ok(ExprV { kind: ExprKindV::PostfixDecrement(Box::new(i)), ty: i.ty, span }),
        },
    }
}

/// The arguments of a call, each checked and converted to its parameter's
/// type, left to right; or the first error met.
pub open spec fn typed_args(syms: Env, args: Seq<ExprV>, params: Seq<TypeV>) -> Result<
    Seq<ExprV>,
    SemanticErrorV,
>
    decreases args,
{
    if args.len() == 0 {
        Ok(Seq::empty())
    } else {
        match typed_expr(syms, args[0]) {
            Err(x) => Err(x),
            Ok(a) => match typed_args(syms, args.subrange(1, args.len() as int), params.subrange(1, params.len() as int)) {
                Err(x) => Err(x),
                Ok(rest) => Ok(seq![convert(a, params[0])] + rest),
            },
        }
    }
}

/// The checker can type `e`: every operand whose type it reads, once
/// checked, has one (an operand that names nothing in the table has none).
pub open spec fn te_ok(env: Env, e: ExprV) -> bool
    decreases e,
{
    match e.kind {
        ExprKindV::Cast(_, i) => te_ok(env, *i),
        ExprKindV::Unary(op, i) => te_ok(env, *i) && (typed_expr(env, *i) is Ok ==> op == UnaryOp::Not
            || typed_expr(env, *i)->Ok_0.ty is Some),
        ExprKindV::PrefixIncrement(i) => te_ok(env, *i) && (typed_expr(env, *i) is Ok ==> typed_expr(env, *i)->Ok_0.ty is Some),
        ExprKindV::PostfixIncrement(i) => te_ok(env, *i) && (typed_expr(env, *i) is Ok ==> typed_expr(env, *i)->Ok_0.ty is Some),
        ExprKindV::PrefixDecrement(i) => te_ok(env, *i) && (typed_expr(env, *i) is Ok ==> typed_expr(env, *i)->Ok_0.ty is Some),
        ExprKindV::PostfixDecrement(i) => te_ok(env, *i) && (typed_expr(env, *i) is Ok ==> typed_expr(env, *i)->Ok_0.ty is Some),
        ExprKindV::Assignment(l, r) => l.kind is FunctionCall || (te_ok(env, *l) && (typed_expr(env, *l) is Ok ==> te_ok(env, *r)
            && (typed_expr(env, *r) is Ok ==> typed_expr(env, *l)->Ok_0.ty is Some && typed_expr(env, *r)->Ok_0.ty is Some))),
        ExprKindV::Binary(op, l, r) => te_ok(env, *l) && (typed_expr(env, *l) is Ok ==> te_ok(env, *r) && (typed_expr(env, *r) is Ok
            ==> op is LogicalAnd || op is LogicalOr || (typed_expr(env, *l)->Ok_0.ty is Some && typed_expr(env, *r)->Ok_0.ty is Some))),
        ExprKindV::Conditional(c, a, b) => te_ok(env, *a) && (typed_expr(env, *a) is Ok ==> te_ok(env, *b) && (typed_expr(env, *b) is Ok
            ==> te_ok(env, *c) && (typed_expr(env, *c) is Ok ==> typed_expr(env, *a)->Ok_0.ty is Some && typed_expr(env, *b)->Ok_0.ty is Some))),
        ExprKindV::FunctionCall(n, args) => match env(n) {
            Some(sym) => match sym.datatype {
                TypeV::FuncType(ps, _) => ps.len() != args.len() || args_te_ok(env, args),
                _ => true,
            },
            None => true,
        },
        _ => true,
    }
}

/// The checker can type the arguments of a call, left to right, up to the
/// first error.
pub open spec fn args_te_ok(env: Env, args: Seq<ExprV>) -> bool
    decreases args,
{
    args.len() == 0 || (te_ok(env, args[0]) && (typed_expr(env, args[0]) is Ok ==> typed_expr(env, args[0])->Ok_0.ty is Some
        && args_te_ok(env, args.subrange(1, args.len() as int))))
}

/// The type checker's state: the symbol table and how deep in blocks it is.
pub struct TypeChecker {
    pub symbols: SymbolTable,
    pub scope_depth: usize,
    pub current_function_type: Option<Type>,
}

/// Records `expression_type` as the type of `expr`.
fn set_type(expr: &mut Expression, expression_type: Type)
    ensures
        final(expr)@ == (ExprV { ty: Some(expression_type@), ..old(expr)@ }),
{
    expr.expression_type = Some(expression_type);
}

/// The common type of two operand types.
fn get_common_type(type1: &Type, type2: &Type) -> (r: Type)
    ensures
        r@ == common_type(type1@, type2@),
{
    if type_eq(type1, type2) {
        clone_type(type1)
    } else if type1.is_double() || type2.is_double() {
        Type::Double
    } else {
        let small1 = matches!(type1, Type::Int | Type::UInt);
        let small2 = matches!(type2, Type::Int | Type::UInt);
        if small1 == small2 {
            if matches!(type1, Type::Int | Type::Long) {
                clone_type(type2)
            } else {
                clone_type(type1)
            }
        } else if small1 {
            clone_type(type2)
        } else {
            clone_type(type1)
        }
    }
}

/// `expr` as a value of `datatype`, under a cast if its type differs.
fn convert_type(expr: Expression, datatype: &Type) -> (r: Expression)
    requires
        expr.expression_type is Some,
    ensures
        r@ == convert(expr@, datatype@),
{
    let same = match &expr.expression_type {
        Some(t) => type_eq(t, datatype),
        None => false,
    };
    if same {
        expr
    } else {
        let span = expr.span;
        let mut cast = Expression::new(ExpressionKind::Cast(clone_type(datatype), Box::new(expr)), None, span);
        set_type(&mut cast, clone_type(datatype));
        cast
    }
}

/// The type of a constant.
fn const_type_of(c: &Const) -> (r: Type)
    ensures
        r@ == const_type(c@),
{
    match c {
        Const::Int(_) => Type::Int,
        Const::Long(_) => Type::Long,
        Const::UInt(_) => Type::UInt,
        Const::ULong(_) => Type::ULong,
        Const::Double(_) => Type::Double,
    }
}

/// Whether an operator's result has the operands' common type.
fn arith_op(op: &BinaryOp) -> (r: bool)
    ensures
        r == is_arith_op(*op),
{
    matches!(op, BinaryOp::Add | BinaryOp::Subtract | BinaryOp::Multiply | BinaryOp::Divide | BinaryOp::Remainder)
}

impl TypeChecker {
    pub fn new(symbols: SymbolTable, scope_depth: usize) -> (r: TypeChecker)
        ensures
            r.symbols == symbols,
            r.scope_depth == scope_depth,
            r.current_function_type is None,
    {
        TypeChecker { symbols, scope_depth, current_function_type: None }
    }

    /// The typed copy of `e`, or the first error met.
    fn typed(&self, e: &Expression) -> (r: Result<Expression, SemanticError>)
        requires
            te_ok(self.symbols.env(), e@),
        ensures
            match typed_expr(self.symbols.env(), e@) {
                Ok(v) => r is Ok && r->Ok_0@ == v,
                Err(x) => r is Err && r->Err_0@ == x,
            },
        decreases e,
    {
        let span = e.span;
        match &e.kind {
            ExpressionKind::Constant(c) => {
                let mut out = Expression::new(ExpressionKind::Constant(c.duplicate()), None, span);
                set_type(&mut out, const_type_of(c));
                Ok(out)
            },
            ExpressionKind::Var(n) => match self.symbols.get(n) {
                None => Ok(clone_expr(e)),
                Some(sym) => {
                    if matches!(sym.datatype, Type::FuncType { .. }) {
                        Err(SemanticError::FuncUsedAsVar(n.clone(), span))
                    } else {
                        let mut out = Expression::new(ExpressionKind::Var(n.clone()), None, span);
                        set_type(&mut out, clone_type(&sym.datatype));
                        Ok(out)
                    }
                },
            },
            ExpressionKind::Cast(t, inner) => {
                let i = match self.typed(inner) {
                    Ok(x) => x,
                    Err(x) => return Err(x),
                };
                let mut out = Expression::new(ExpressionKind::Cast(clone_type(t), Box::new(i)), None, span);
                set_type(&mut out, clone_type(t));
                Ok(out)
            },
            ExpressionKind::Assignment(l, r) => {
                if let ExpressionKind::FunctionCall(ident, _) = &l.kind {
                    assert(l@.kind->FunctionCall_0 == ident@);
                    return Err(SemanticError::FuncUsedAsVar(ident.clone(), span));
                }
                let l2 = match self.typed(l) {
                    Ok(x) => x,
                    Err(x) => return Err(x),
                };
                let r2 = match self.typed(r) {
                    Ok(x) => x,
                    Err(x) => return Err(x),
                };
                let exp_type = match &l2.expression_type {
                    Some(t) => clone_type(t),
                    None => vstd::pervasive::unreached(),
                };
                let r3 = convert_type(r2, &exp_type);
                let mut out = Expression::new(ExpressionKind::Assignment(Box::new(l2), Box::new(r3)), None, span);
                set_type(&mut out, exp_type);
                Ok(out)
            },
            ExpressionKind::Unary(op, inner) => {
                let i = match self.typed(inner) {
                    Ok(x) => x,
                    Err(x) => return Err(x),
                };
                let exp_type = if *op == UnaryOp::Not {
                    Type::Int
                } else {
                    let inner_type = match &i.expression_type {
                        Some(t) => clone_type(t),
                        None => vstd::pervasive::unreached(),
                    };
                    if *op == UnaryOp::Complement && inner_type.is_double() {
                        return Err(SemanticError::ComplementFloat(span));
                    }
                    inner_type
                };
                let mut out = Expression::new(ExpressionKind::Unary(*op, Box::new(i)), None, span);
                set_type(&mut out, exp_type);
                Ok(out)
            },
            ExpressionKind::Binary(op, l, r) => {
                let l2 = match self.typed(l) {
                    Ok(x) => x,
                    Err(x) => return Err(x),
                };
                let r2 = match self.typed(r) {
                    Ok(x) => x,
                    Err(x) => return Err(x),
                };
                if matches!(op, BinaryOp::LogicalAnd | BinaryOp::LogicalOr) {
                    let mut out = Expression::new(ExpressionKind::Binary(op.duplicate(), Box::new(l2), Box::new(r2)), None, span);
                    set_type(&mut out, Type::Int);
                    return Ok(out);
                }
                let type1 = match &l2.expression_type {
                    Some(t) => clone_type(t),
                    None => vstd::pervasive::unreached(),
                };
                let type2 = match &r2.expression_type {
                    Some(t) => clone_type(t),
                    None => vstd::pervasive::unreached(),
                };
                if matches!(op, BinaryOp::LeftShift | BinaryOp::RightShift) {
                    let mut out = Expression::new(ExpressionKind::Binary(op.duplicate(), Box::new(l2), Box::new(r2)), None, span);
                    set_type(&mut out, type1);
                    Ok(out)
                } else {
                    let common = get_common_type(&type1, &type2);
                    if matches!(op, BinaryOp::Remainder) && common.is_double() {
                        return Err(SemanticError::RemainderFloat(span));
                    }
                    let l3 = convert_type(l2, &common);
                    let r3 = convert_type(r2, &common);
                    let exp_type = if arith_op(op) {
                        common
                    } else {
                        Type::Int
                    };
                    let mut out = Expression::new(ExpressionKind::Binary(op.duplicate(), Box::new(l3), Box::new(r3)), None, span);
                    set_type(&mut out, exp_type);
                    Ok(out)
                }
            },
            ExpressionKind::Conditional(c, a, b) => {
                let a2 = match self.typed(a) {
                    Ok(x) => x,
                    Err(x) => return Err(x),
                };
                let b2 = match self.typed(b) {
                    Ok(x) => x,
                    Err(x) => return Err(x),
                };
                let c2 = match self.typed(c) {
                    Ok(x) => x,
                    Err(x) => return Err(x),
                };
                let type1 = match &a2.expression_type {
                    Some(t) => clone_type(t),
                    None => vstd::pervasive::unreached(),
                };
                let type2 = match &b2.expression_type {
                    Some(t) => clone_type(t),
                    None => vstd::pervasive::unreached(),
                };
                let common = get_common_type(&type1, &type2);
                let a3 = convert_type(a2, &common);
                let b3 = convert_type(b2, &common);
                let mut out = Expression::new(
                    ExpressionKind::Conditional(Box::new(c2), Box::new(a3), Box::new(b3)),
                    None,
                    span,
                );
                set_type(&mut out, common);
                Ok(out)
            },
            ExpressionKind::FunctionCall(n, args) => {
                let sym = match self.symbols.get(n) {
                    Some(sym) => sym,
                    None => return Ok(clone_expr(e)),
                };
                match &sym.datatype {
                    Type::FuncType { params, ret } => {
                        proof {
                            lemma_params_view(params@);
                            lemma_exprs_view(args@);
                        }
                        if params.len() != args.len() {
                            return Err(SemanticError::FuncCalledWithWrongNumArgs(n.clone(), span));
                        }
                        let ghost av = exprs_view(args@);
                        let ghost pv = params_view(params@);
                        let mut out: Vec<Expression> = Vec::new();
                        let mut i: usize = 0;
                        assert(typed_expr(self.symbols.env(), e@) == match typed_args(self.symbols.env(), av, pv) {
                            Err(x) => Err(x),
                            Ok(a2) => Ok(ExprV { kind: ExprKindV::FunctionCall(n@, a2), ty: Some((**ret)@), span }),
                        });
                        proof {
                            assert(av.subrange(0, av.len() as int) =~= av);
                            assert(pv.subrange(0, pv.len() as int) =~= pv);
                            assert(exprs_view(out@) =~= Seq::<ExprV>::empty());
                            match typed_args(self.symbols.env(), av, pv) {
                                Ok(rest) => {
                                    assert(exprs_view(out@) + rest =~= rest);
                                },
                                Err(_) => {},
                            }
                        }
                        while i < args.len()
                            invariant
                                i <= args@.len(),
                                args@.len() == params@.len(),
                                av == exprs_view(args@),
                                pv == params_view(params@),
                                av.len() == args@.len(),
                                pv.len() == params@.len(),
                                forall|j: int| 0 <= j < args@.len() ==> #[trigger] av[j] == args@[j]@,
                                forall|j: int| 0 <= j < params@.len() ==> #[trigger] pv[j] == (*params@[j])@,
                                e.kind is FunctionCall && e.kind->FunctionCall_1 == *args,
                                args_te_ok(self.symbols.env(), av.subrange(i as int, av.len() as int)),
                                typed_expr(self.symbols.env(), e@) == match typed_args(self.symbols.env(), av, pv) {
                                    Err(x) => Err(x),
                                    Ok(a2) => Ok(ExprV { kind: ExprKindV::FunctionCall(n@, a2), ty: Some((**ret)@), span }),
                                },
                                out@.len() == i,
                                typed_args(self.symbols.env(), av, pv) == match typed_args(
                                    self.symbols.env(),
                                    av.subrange(i as int, av.len() as int),
                                    pv.subrange(i as int, pv.len() as int),
                                ) {
                                    Ok(rest) => Ok(exprs_view(out@) + rest),
                                    Err(x) => Err(x),
                                },
                            decreases args@.len() - i,
                        {
                            proof {
                                vstd::std_specs::vec::axiom_vec_index_decreases(*args, i as int);
                                assert(decreases_to!(*e => args@[i as int]));
                            }
                            let ghost sa = av.subrange(i as int, av.len() as int);
                            let ghost sp = pv.subrange(i as int, pv.len() as int);
                            assert(sa[0] == av[i as int]);
                            assert(sa.subrange(1, sa.len() as int) =~= av.subrange(i + 1, av.len() as int));
                            assert(sp.subrange(1, sp.len() as int) =~= pv.subrange(i + 1, pv.len() as int));
                            let a2 = match self.typed(&args[i]) {
                                Ok(x) => x,
                                Err(x) => return Err(x),
                            };
                            let a3 = convert_type(a2, &params[i]);
                            proof {
                                lemma_exprs_view(out@);
                                lemma_exprs_view(out@.push(a3));
                                assert(exprs_view(out@.push(a3)) =~= exprs_view(out@).push(a3@));
                                match typed_args(self.symbols.env(), av.subrange(i + 1, av.len() as int), pv.subrange(i + 1, pv.len() as int)) {
                                    Ok(rest) => {
                                        assert(exprs_view(out@).push(a3@) + rest =~= exprs_view(out@) + (seq![a3@] + rest));
                                    },
                                    Err(_) => {},
                                }
                            }
                            out.push(a3);
                            i = i + 1;
                        }
                        proof {
                            assert(av.subrange(i as int, av.len() as int) =~= Seq::<ExprV>::empty());
                            assert(exprs_view(out@) + Seq::<ExprV>::empty() =~= exprs_view(out@));
                        }
                        let mut call = Expression::new(ExpressionKind::FunctionCall(n.clone(), out), None, span);
                        set_type(&mut call, clone_type(ret));
                        Ok(call)
                    },
                    _ => Err(SemanticError::VarCalledAsFunc(n.clone(), span)),
                }
            },
            ExpressionKind::PrefixIncrement(inner) => {
                let i = match self.typed(inner) {
                    Ok(x) => x,
                    Err(x) => return Err(x),
                };
                let t = match &i.expression_type {
                    Some(t) => clone_type(t),
                    None => vstd::pervasive::unreached(),
                };
                let mut out = Expression::new(ExpressionKind::PrefixIncrement(Box::new(i)), None, span);
                set_type(&mut out, t);
                Ok(out)
            },
            ExpressionKind::PostfixIncrement(inner) => {
                let i = match self.typed(inner) {
                    Ok(x) => x,
                    Err(x) => return Err(x),
                };
                let t = match &i.expression_type {
                    Some(t) => clone_type(t),
                    None => vstd::pervasive::unreached(),
                };
                let mut out = Expression::new(ExpressionKind::PostfixIncrement(Box::new(i)), None, span);
                set_type(&mut out, t);
                Ok(out)
            },
            ExpressionKind::PrefixDecrement(inner) => {
                let i = match self.typed(inner) {
                    Ok(x) => x,
                    Err(x) => return Err(x),
                };
                let t = match &i.expression_type {
                    Some(t) => clone_type(t),
                    None => vstd::pervasive::unreached(),
                };
                let mut out = Expression::new(ExpressionKind::PrefixDecrement(Box::new(i)), None, span);
                set_type(&mut out, t);
                Ok(out)
            },
            ExpressionKind::PostfixDecrement(inner) => {
                let i = match self.typed(inner) {
                    Ok(x) => x,
                    Err(x) => return Err(x),
                };
                let t = match &i.expression_type {
                    Some(t) => clone_type(t),
                    None => vstd::pervasive::unreached(),
                };
                let mut out = Expression::new(ExpressionKind::PostfixDecrement(Box::new(i)), None, span);
                set_type(&mut out, t);
                Ok(out)
            },
        }
    }

    /// Annotates `expr` and its subexpressions with their types, inserting
    /// casts where an operand is converted; on an error `expr` is unchanged.
    pub fn type_expression(&self, expr: &mut Expression) -> (r: Result<(), SemanticError>)
        requires
            te_ok(self.symbols.env(), old(expr)@),
        ensures
            match typed_expr(self.symbols.env(), old(expr)@) {
                Ok(v) => r is Ok && final(expr)@ == v,
                Err(x) => r is Err && r->Err_0@ == x && final(expr)@ == old(expr)@,
            },
    {
        match self.typed(expr) {
            Ok(t) => {
                *expr = t;
                Ok(())
            },
            Err(x) => Err(x),
        }
    }
}


/// The static initial value a constant gives.
pub open spec fn init_of(c: ConstV) -> StaticInitV {
    match c {
        ConstV::Int(i) => StaticInitV::IntInit(i),
        ConstV::Long(l) => StaticInitV::LongInit(l),
        ConstV::UInt(u) => StaticInitV::UIntInit(u),
        ConstV::ULong(u) => StaticInitV::ULongInit(u),
        ConstV::Double(d) => StaticInitV::DoubleInit(d),
    }
}

/// Zero as the static initial value of an object of type `t`.
pub open spec fn zero_of(t: TypeV) -> StaticInitV {
    match t {
        TypeV::Long => StaticInitV::LongInit(0),
        TypeV::UInt => StaticInitV::UIntInit(0),
        TypeV::ULong | TypeV::Pointer(_) => StaticInitV::ULongInit(0),
        TypeV::Double => StaticInitV::DoubleInit(seq!['0', '.', '0']),
        _ => StaticInitV::IntInit(0),
    }
}

pub open spec fn is_initial(i: InitialValueV) -> bool {
    i is Initial
}

/// What a file-scope variable declaration does to the symbol table: the
/// entry it records, or the error it is refused with.
pub open spec fn global_var(syms: Env, d: VarDeclV) -> Result<SymbolV, SemanticErrorV> {
    let is_extern = d.storage == Some(StorageClass::Extern);
    let init0: Result<InitialValueV, SemanticErrorV> = match d.init {
        Some(e) => match e.kind {
            ExprKindV::Constant(c) => Ok(InitialValueV::Initial(init_of(c))),
            _ => Err(SemanticErrorV::NonConstantInitializer(d.identifier, d.span)),
        },
        None => Ok(if is_extern { InitialValueV::NoInitializer } else { InitialValueV::Tentative }),
    };
    let global0 = d.storage != Some(StorageClass::Static);
    match init0 {
        Err(e) => Err(e),
        Ok(init) => match syms(d.identifier) {
            None => Ok(
                SymbolV {
                    ident: d.identifier,
                    datatype: d.var_type,
                    attrs: IdentAttrsV::StaticAttr { init, global: global0 },
                },
            ),
            Some(old) => match old.attrs {
                IdentAttrsV::StaticAttr { init: old_init, global: old_global } => if old.datatype != d.var_type {
                    Err(SemanticErrorV::FuncUsedAsVar(d.identifier, d.span))
                } else if !is_extern && global0 != old_global {
                    Err(SemanticErrorV::ConflictingStorageTypes(d.identifier, d.span))
                } else if is_initial(old_init) && is_initial(init) {
                    Err(SemanticErrorV::ConflictingDefinitions(d.identifier, d.span))
                } else {
                    let global = if is_extern { old_global } else { global0 };
                    let init1 = if is_initial(old_init) {
                        old_init
                    } else if !is_initial(init) && old_init is Tentative {
                        InitialValueV::Tentative
                    } else {
                        init
                    };
                    Ok(
                        SymbolV {
                            ident: d.identifier,
                            datatype: d.var_type,
                            attrs: IdentAttrsV::StaticAttr { init: init1, global },
                        },
                    )
                },
                _ => Err(SemanticErrorV::FuncUsedAsVar(d.identifier, d.span)),
            },
        },
    }
}

/// What a block-scope variable declaration records, if anything, or the
/// error it is refused with. A local variable's initializer is typed after.
pub open spec fn local_var(syms: Env, d: VarDeclV) -> Result<Option<SymbolV>, SemanticErrorV> {
    if d.storage == Some(StorageClass::Extern) {
        if d.init is Some {
            Err(SemanticErrorV::InitializerOnLocalExtern(d.identifier, d.span))
        } else {
            match syms(d.identifier) {
                Some(old) => if old.datatype != d.var_type {
                    Err(SemanticErrorV::FuncUsedAsVar(d.identifier, d.span))
                } else {
                    Ok(None)
                },
                None => Ok(
                    Some(
                        SymbolV {
                            ident: d.identifier,
                            datatype: d.var_type,
                            attrs: IdentAttrsV::StaticAttr { init: InitialValueV::NoInitializer, global: true },
                        },
                    ),
                ),
            }
        }
    } else if d.storage == Some(StorageClass::Static) {
        match d.init {
            Some(e) => match e.kind {
                ExprKindV::Constant(c) => Ok(
                    Some(
                        SymbolV {
                            ident: d.identifier,
                            datatype: d.var_type,
                            attrs: IdentAttrsV::StaticAttr { init: InitialValueV::Initial(init_of(c)), global: false },
                        },
                    ),
                ),
                _ => Err(SemanticErrorV::LocalStaticVarNonConstantInit(d.identifier, e.span)),
            },
            None => Ok(
                Some(
                    SymbolV {
                        ident: d.identifier,
                        datatype: d.var_type,
                        attrs: IdentAttrsV::StaticAttr { init: InitialValueV::Initial(zero_of(d.var_type)), global: false },
                    },
                ),
            ),
        }
    } else {
        Ok(Some(SymbolV { ident: d.identifier, datatype: d.var_type, attrs: IdentAttrsV::LocalAttr }))
    }
}

/// The type of parameter `i` of a function of type `ft`; `int` where the
/// type records none.
pub open spec fn param_type(ft: TypeV, i: int) -> TypeV {
    match ft {
        TypeV::FuncType(params, _) => if 0 <= i < params.len() { params[i] } else { TypeV::Int },
        _ => TypeV::Int,
    }
}

/// What a function declaration records for the function, or the error it
/// is refused with.
pub open spec fn func_decl(syms: Env, f: FuncDeclV) -> Result<SymbolV, SemanticErrorV> {
    let has_body = f.body is Some;
    let global0 = f.storage != Some(StorageClass::Static);
    match syms(f.identifier) {
        None => Ok(
            SymbolV {
                ident: f.identifier,
                datatype: f.func_type,
                attrs: IdentAttrsV::FuncAttr { defined: has_body, global: global0 },
            },
        ),
        Some(old) => match old.attrs {
            IdentAttrsV::FuncAttr { defined, global } => if old.datatype != f.func_type {
                Err(SemanticErrorV::IncompatibleFuncDeclaration(f.identifier, f.span))
            } else if defined && has_body {
                Err(SemanticErrorV::DoubleDeclaration(f.identifier, f.span))
            } else if global && f.storage == Some(StorageClass::Static) {
                Err(SemanticErrorV::StaticAfterNonStatic(f.identifier, f.span))
            } else {
                Ok(
                    SymbolV {
                        ident: f.identifier,
                        datatype: f.func_type,
                        attrs: IdentAttrsV::FuncAttr { defined: defined || has_body, global },
                    },
                )
            },
            _ => Err(SemanticErrorV::IncompatibleFuncDeclaration(f.identifier, f.span)),
        },
    }
}

/// The last position of `n` in `ps`.
pub open spec fn last_index(ps: Seq<Seq<char>>, n: Seq<char>) -> Option<int>
    decreases ps.len(),
{
    if ps.len() == 0 {
        None
    } else if ps.last() == n {
        Some(ps.len() - 1)
    } else {
        last_index(ps.drop_last(), n)
    }
}

/// The static initial value of a constant.
fn static_init_of(c: &Const) -> (r: StaticInit)
    ensures
        r@ == init_of(c@),
{
    match c {
        Const::Int(i) => StaticInit::IntInit(*i),
        Const::Long(l) => StaticInit::LongInit(*l),
        Const::UInt(u) => StaticInit::UIntInit(*u),
        Const::ULong(u) => StaticInit::ULongInit(*u),
        Const::Double(d) => StaticInit::DoubleInit(d.clone()),
    }
}

fn zero_init_of(t: &Type) -> (r: StaticInit)
    ensures
        r@ == zero_of(t@),
{
    match t {
        Type::Long => StaticInit::LongInit(0),
        Type::UInt => StaticInit::UIntInit(0),
        Type::ULong | Type::Pointer(_) => StaticInit::ULongInit(0),
        Type::Double => {
            let mut v: Vec<char> = Vec::new();
            v.push('0');
            v.push('.');
            v.push('0');
            assert(v@ =~= seq!['0', '.', '0']);
            StaticInit::DoubleInit(string_from_chars(&v))
        },
        _ => StaticInit::IntInit(0),
    }
}

impl Symbol {
    pub fn new_func(ident: String, ftype: Type, defined: bool, global: bool) -> (r: Symbol)
        ensures
            r@ == (SymbolV { ident: ident@, datatype: ftype@, attrs: IdentAttrsV::FuncAttr { defined, global } }),
    {
        Symbol { ident, datatype: ftype, attrs: IdentAttrs::FuncAttr { defined, global } }
    }

    pub fn new_static_var(ident: String, vtype: Type, init: InitialValue, global: bool) -> (r: Symbol)
        ensures
            r@ == (SymbolV { ident: ident@, datatype: vtype@, attrs: IdentAttrsV::StaticAttr { init: init@, global } }),
    {
        Symbol { ident, datatype: vtype, attrs: IdentAttrs::StaticAttr { init, global } }
    }

    pub fn new_var(ident: String, vtype: Type) -> (r: Symbol)
        ensures
            r@ == (SymbolV { ident: ident@, datatype: vtype@, attrs: IdentAttrsV::LocalAttr }),
    {
        Symbol { ident, datatype: vtype, attrs: IdentAttrs::LocalAttr }
    }
}

impl TypeChecker {
    /// Records a file-scope variable, merging it with an earlier
    /// declaration of the same name.
    pub fn check_global_var(&mut self, decl: &VarDeclaration) -> (r: Result<(), SemanticError>)
        ensures
            match global_var(old(self).symbols.env(), decl@) {
                Ok(sym) => r is Ok && forall|n: Seq<char>| #[trigger] final(self).symbols.spec_get(n) == if n == decl.identifier@ {
                    Some(sym)
                } else {
                    old(self).symbols.spec_get(n)
                },
                Err(e) => r is Err && r->Err_0@ == e && final(self).symbols == old(self).symbols,
            },
            final(self).scope_depth == old(self).scope_depth,
    {
        let mut initial_value = match &decl.init {
            Some(expr) => match &expr.kind {
                ExpressionKind::Constant(i) => InitialValue::Initial(static_init_of(i)),
                _ => return Err(SemanticError::NonConstantInitializer(decl.identifier.clone(), decl.span)),
            },
            None => if is_extern(decl) {
                InitialValue::NoInitializer
            } else {
                InitialValue::Tentative
            },
        };
        let mut global = !is_static(decl);
        match self.symbols.get(&decl.identifier) {
            Some(old) => match &old.attrs {
                IdentAttrs::StaticAttr { init: old_init, global: old_global } => {
                    if !type_eq(&old.datatype, &decl.var_type) {
                        return Err(SemanticError::FuncUsedAsVar(decl.identifier.clone(), decl.span));
                    }
                    if is_extern(decl) {
                        global = *old_global;
                    } else if global != *old_global {
                        return Err(SemanticError::ConflictingStorageTypes(decl.identifier.clone(), decl.span));
                    }
                    if matches!(old_init, InitialValue::Initial(..)) {
                        if matches!(initial_value, InitialValue::Initial(..)) {
                            return Err(SemanticError::ConflictingDefinitions(decl.identifier.clone(), decl.span));
                        } else {
                            initial_value = old_init.duplicate();
                        }
                    } else if !matches!(initial_value, InitialValue::Initial(..)) && matches!(old_init, InitialValue::Tentative) {
                        initial_value = InitialValue::Tentative;
                    }
                },
                _ => return Err(SemanticError::FuncUsedAsVar(decl.identifier.clone(), decl.span)),
            },
            None => {},
        }
        self.symbols.insert(
            decl.identifier.clone(),
            Symbol::new_static_var(decl.identifier.clone(), clone_type(&decl.var_type), initial_value, global),
        );
        Ok(())
    }

    /// Records a variable declaration: at file scope as
    /// [`check_global_var`](Self::check_global_var) does; in a block as an
    /// `extern` reference, a local static or a local variable whose
    /// initializer is then typed.
    pub fn visit_var_decl(&mut self, decl: &mut VarDeclaration) -> (r: Result<(), SemanticError>)
        requires
            old(self).scope_depth != 0 ==> local_holds(old(self).symbols.env(), old(decl)@, can_type()),
        ensures
            old(self).scope_depth == 0 ==> match global_var(old(self).symbols.env(), old(decl)@) {
                Ok(sym) => r is Ok && forall|n: Seq<char>| #[trigger] final(self).symbols.spec_get(n) == if n == old(decl).identifier@ {
                    Some(sym)
                } else {
                    old(self).symbols.spec_get(n)
                },
                Err(e) => r is Err && r->Err_0@ == e && final(self).symbols == old(self).symbols,
            } && final(decl)@ == old(decl)@,
            old(self).scope_depth != 0 ==> match local_var(old(self).symbols.env(), old(decl)@) {
                Err(e) => r is Err && r->Err_0@ == e && final(self).symbols == old(self).symbols && final(decl)@ == old(decl)@,
                Ok(rec) => {
                    &&& forall|n: Seq<char>| #[trigger] final(self).symbols.spec_get(n) == match rec {
                        Some(sym) => if n == old(decl).identifier@ { Some(sym) } else { old(self).symbols.spec_get(n) },
                        None => old(self).symbols.spec_get(n),
                    }
                    &&& match (rec, old(decl)@.init) {
                        (Some(sym), Some(e)) if sym.attrs is LocalAttr => match typed_expr(final(self).symbols.env(), e) {
                            Ok(v) => r is Ok && final(decl)@ == (VarDeclV { init: Some(v), ..old(decl)@ }),
                            Err(x) => r is Err && r->Err_0@ == x && final(decl)@ == old(decl)@,
                        },
                        _ => r is Ok && final(decl)@ == old(decl)@,
                    }
                },
            },
            final(self).scope_depth == old(self).scope_depth,
    {
        if self.scope_depth == 0 {
            return self.check_global_var(decl);
        }
        if is_extern(decl) {
            if decl.init.is_some() {
                return Err(SemanticError::InitializerOnLocalExtern(decl.identifier.clone(), decl.span));
            }
            match self.symbols.get(&decl.identifier) {
                Some(old) => {
                    if !type_eq(&old.datatype, &decl.var_type) {
                        return Err(SemanticError::FuncUsedAsVar(decl.identifier.clone(), decl.span));
                    }
                },
                None => {
                    self.symbols.insert(
                        decl.identifier.clone(),
                        Symbol::new_static_var(
                            decl.identifier.clone(),
                            clone_type(&decl.var_type),
                            InitialValue::NoInitializer,
                            true,
                        ),
                    );
                },
            }
        } else if is_static(decl) {
            let initial_value = match &decl.init {
                Some(expr) => match &expr.kind {
                    ExpressionKind::Constant(i) => InitialValue::Initial(static_init_of(i)),
                    _ => {
                        return Err(SemanticError::LocalStaticVarNonConstantInit(decl.identifier.clone(), expr.span));
                    },
                },
                None => InitialValue::Initial(zero_init_of(&decl.var_type)),
            };
            self.symbols.insert(
                decl.identifier.clone(),
                Symbol::new_static_var(decl.identifier.clone(), clone_type(&decl.var_type), initial_value, false),
            );
        } else {
            let ghost env0 = self.symbols.env();
            let ghost dv = decl@;
            self.symbols.insert(decl.identifier.clone(), Symbol::new_var(decl.identifier.clone(), clone_type(&decl.var_type)));
            proof {
                let sym = SymbolV { ident: dv.identifier, datatype: dv.var_type, attrs: IdentAttrsV::LocalAttr };
                assert(self.symbols.env() =~= env_with(env0, dv.identifier, sym));
            }
            match &mut decl.init {
                Some(e) => {
                    let res = self.type_expression(e);
                    match res {
                        Ok(()) => {},
                        Err(x) => return Err(x),
                    }
                },
                None => {},
            }
        }
        Ok(())
    }

    /// Records a function declaration, merging it with an earlier one; a
    /// definition also records its parameters as locals.
    pub fn visit_func_decl(&mut self, function: &FuncDeclaration) -> (r: Result<(), SemanticError>)
        ensures
            match func_decl(old(self).symbols.env(), function@) {
                Ok(sym) => r is Ok && forall|n: Seq<char>| #[trigger] final(self).symbols.spec_get(n) == match (
                    function.body,
                    last_index(function@.params, n),
                ) {
                    (Some(_), Some(k)) => Some(
                        SymbolV { ident: n, datatype: param_type(function.func_type@, k), attrs: IdentAttrsV::LocalAttr },
                    ),
                    _ => if n == function.identifier@ {
                        Some(sym)
                    } else {
                        old(self).symbols.spec_get(n)
                    },
                },
                Err(e) => r is Err && r->Err_0@ == e && final(self).symbols == old(self).symbols,
            },
            final(self).scope_depth == old(self).scope_depth,
    {
        let has_body = function.body.is_some();
        let mut alr_def = false;
        let mut global = match function.storage {
            Some(StorageClass::Static) => false,
            _ => true,
        };
        match self.symbols.get(&function.identifier) {
            Some(old) => match &old.attrs {
                IdentAttrs::FuncAttr { defined: olddef, global: oldglobal } => {
                    if !type_eq(&old.datatype, &function.func_type) {
                        return Err(SemanticError::IncompatibleFuncDeclaration(function.identifier.clone(), function.span));
                    }
                    alr_def = *olddef;
                    if alr_def && has_body {
                        return Err(SemanticError::DoubleDeclaration(function.identifier.clone(), function.span));
                    }
                    if *oldglobal && matches!(function.storage, Some(StorageClass::Static)) {
                        return Err(SemanticError::StaticAfterNonStatic(function.identifier.clone(), function.span));
                    }
                    global = *oldglobal;
                },
                _ => {
                    return Err(SemanticError::IncompatibleFuncDeclaration(function.identifier.clone(), function.span));
                },
            },
            None => {},
        }
        self.symbols.insert(
            function.identifier.clone(),
            Symbol::new_func(function.identifier.clone(), clone_type(&function.func_type), alr_def || has_body, global),
        );
        let ghost mid = self.symbols;
        let ghost depth = self.scope_depth;
        if has_body {
            let ghost pv = function@.params;
            let mut i: usize = 0;
            assert(pv.subrange(0, 0) =~= Seq::<Seq<char>>::empty());
            while i < function.params.len()
                invariant
                    i <= function.params@.len(),
                    pv == function@.params,
                    pv.len() == function.params@.len(),
                    self.scope_depth == depth,
                    forall|n: Seq<char>| #[trigger] self.symbols.spec_get(n) == match last_index(pv.subrange(0, i as int), n) {
                        Some(k) => Some(SymbolV { ident: n, datatype: param_type(function.func_type@, k), attrs: IdentAttrsV::LocalAttr }),
                        None => mid.spec_get(n),
                    },
                decreases function.params@.len() - i,
            {
                let t = param_type_of(&function.func_type, i);
                let p = function.params[i].clone();
                assert(pv[i as int] == p@);
                self.symbols.insert(p.clone(), Symbol::new_var(p, t));
                assert(pv.subrange(0, i + 1).drop_last() =~= pv.subrange(0, i as int));
                i = i + 1;
            }
            assert(pv.subrange(0, i as int) =~= pv);
        }
        Ok(())
    }
}

/// The type of parameter `i` of a function of type `ft`.
fn param_type_of(ft: &Type, i: usize) -> (r: Type)
    ensures
        r@ == param_type(ft@, i as int),
{
    match ft {
        Type::FuncType { params, .. } => {
            proof {
                lemma_params_view(params@);
            }
            if i < params.len() {
                clone_type(&params[i])
            } else {
                Type::Int
            }
        },
        _ => Type::Int,
    }
}



/// Every name `e` uses is recorded in the table.
pub open spec fn names_declared(env: Env, e: ExprV) -> bool
    decreases e,
{
    match e.kind {
        ExprKindV::Var(n) => env(n) is Some,
        ExprKindV::FunctionCall(n, args) => env(n) is Some && all_declared(env, args),
        ExprKindV::Cast(_, i) => names_declared(env, *i),
        ExprKindV::Unary(_, i) => names_declared(env, *i),
        ExprKindV::PrefixIncrement(i) => names_declared(env, *i),
        ExprKindV::PostfixIncrement(i) => names_declared(env, *i),
        ExprKindV::PrefixDecrement(i) => names_declared(env, *i),
        ExprKindV::PostfixDecrement(i) => names_declared(env, *i),
        ExprKindV::Assignment(l, r) => names_declared(env, *l) && names_declared(env, *r),
        ExprKindV::Binary(_, l, r) => names_declared(env, *l) && names_declared(env, *r),
        ExprKindV::Conditional(c, a, b) => names_declared(env, *c) && names_declared(env, *a) && names_declared(env, *b),
        _ => true,
    }
}

pub open spec fn all_declared(env: Env, args: Seq<ExprV>) -> bool
    decreases args,
{
    args.len() == 0 || (names_declared(env, args[0]) && all_declared(env, args.subrange(1, args.len() as int)))
}

/// Every node of `e` carries a type, and every cast node the type it casts to.
pub open spec fn fully_typed(e: ExprV) -> bool
    decreases e,
{
    e.ty is Some && match e.kind {
        ExprKindV::Cast(t, i) => e.ty == Some(t) && fully_typed(*i),
        ExprKindV::Unary(_, i) => fully_typed(*i),
        ExprKindV::PrefixIncrement(i) => fully_typed(*i),
        ExprKindV::PostfixIncrement(i) => fully_typed(*i),
        ExprKindV::PrefixDecrement(i) => fully_typed(*i),
        ExprKindV::PostfixDecrement(i) => fully_typed(*i),
        ExprKindV::Assignment(l, r) => fully_typed(*l) && fully_typed(*r),
        ExprKindV::Binary(_, l, r) => fully_typed(*l) && fully_typed(*r),
        ExprKindV::Conditional(c, a, b) => fully_typed(*c) && fully_typed(*a) && fully_typed(*b),
        ExprKindV::FunctionCall(_, args) => all_fully_typed(args),
        _ => true,
    }
}

pub open spec fn all_fully_typed(args: Seq<ExprV>) -> bool
    decreases args,
{
    args.len() == 0 || (fully_typed(args[0]) && all_fully_typed(args.subrange(1, args.len() as int)))
}

/// A typed expression converted to another type is still typed throughout.
pub proof fn lemma_convert_fully_typed(e: ExprV, t: TypeV)
    requires
        fully_typed(e),
    ensures
        fully_typed(convert(e, t)),
{
}

/// Checking an expression whose names the table records, where the
/// checker accepts it, gives every node of it a type, and every cast node
/// the type it casts to.
pub proof fn lemma_checked_expr_fully_typed(env: Env, e: ExprV)
    requires
        names_declared(env, e),
        typed_expr(env, e) is Ok,
    ensures
        fully_typed(typed_expr(env, e)->Ok_0),
    decreases e,
{
    match e.kind {
        ExprKindV::Cast(_, i) => lemma_checked_expr_fully_typed(env, *i),
        ExprKindV::Unary(_, i) => lemma_checked_expr_fully_typed(env, *i),
        ExprKindV::PrefixIncrement(i) => lemma_checked_expr_fully_typed(env, *i),
        ExprKindV::PostfixIncrement(i) => lemma_checked_expr_fully_typed(env, *i),
        ExprKindV::PrefixDecrement(i) => lemma_checked_expr_fully_typed(env, *i),
        ExprKindV::PostfixDecrement(i) => lemma_checked_expr_fully_typed(env, *i),
        ExprKindV::Assignment(l, r) => {
            lemma_checked_expr_fully_typed(env, *l);
            lemma_checked_expr_fully_typed(env, *r);
            let l2 = typed_expr(env, *l)->Ok_0;
            let r2 = typed_expr(env, *r)->Ok_0;
            lemma_convert_fully_typed(r2, type_of(l2));
        },
        ExprKindV::Binary(op, l, r) => {
            lemma_checked_expr_fully_typed(env, *l);
            lemma_checked_expr_fully_typed(env, *r);
            let l2 = typed_expr(env, *l)->Ok_0;
            let r2 = typed_expr(env, *r)->Ok_0;
            let ct = common_type(type_of(l2), type_of(r2));
            lemma_convert_fully_typed(l2, ct);
            lemma_convert_fully_typed(r2, ct);
        },
        ExprKindV::Conditional(c, a, b) => {
            lemma_checked_expr_fully_typed(env, *c);
            lemma_checked_expr_fully_typed(env, *a);
            lemma_checked_expr_fully_typed(env, *b);
            let a2 = typed_expr(env, *a)->Ok_0;
            let b2 = typed_expr(env, *b)->Ok_0;
            let ct = common_type(type_of(a2), type_of(b2));
            lemma_convert_fully_typed(a2, ct);
            lemma_convert_fully_typed(b2, ct);
        },
        ExprKindV::FunctionCall(n, args) => {
            let ps = env(n)->0.datatype->FuncType_0;
            lemma_checked_args_fully_typed(env, args, ps);
        },
        _ => {},
    }
}

/// The checker can type an expression whose names the table records.
pub proof fn lemma_declared_te_ok(env: Env, e: ExprV)
    requires
        names_declared(env, e),
    ensures
        te_ok(env, e),
    decreases e,
{
    match e.kind {
        ExprKindV::Cast(_, i) => lemma_declared_te_ok(env, *i),
        ExprKindV::Unary(_, i) | ExprKindV::PrefixIncrement(i) | ExprKindV::PostfixIncrement(i)
        | ExprKindV::PrefixDecrement(i) | ExprKindV::PostfixDecrement(i) => {
            lemma_declared_te_ok(env, *i);
            if typed_expr(env, *i) is Ok {
                lemma_checked_expr_fully_typed(env, *i);
            }
        },
        ExprKindV::Assignment(l, r) | ExprKindV::Binary(_, l, r) => {
            lemma_declared_te_ok(env, *l);
            lemma_declared_te_ok(env, *r);
            if typed_expr(env, *l) is Ok {
                lemma_checked_expr_fully_typed(env, *l);
            }
            if typed_expr(env, *r) is Ok {
                lemma_checked_expr_fully_typed(env, *r);
            }
        },
        ExprKindV::Conditional(c, a, b) => {
            lemma_declared_te_ok(env, *a);
            lemma_declared_te_ok(env, *b);
            lemma_declared_te_ok(env, *c);
            if typed_expr(env, *a) is Ok {
                lemma_checked_expr_fully_typed(env, *a);
            }
            if typed_expr(env, *b) is Ok {
                lemma_checked_expr_fully_typed(env, *b);
            }
        },
        ExprKindV::FunctionCall(_, args) => lemma_declared_args_te_ok(env, args),
        _ => {},
    }
}

pub proof fn lemma_declared_args_te_ok(env: Env, args: Seq<ExprV>)
    requires
        all_declared(env, args),
    ensures
        args_te_ok(env, args),
    decreases args,
{
    if args.len() > 0 {
        lemma_declared_te_ok(env, args[0]);
        if typed_expr(env, args[0]) is Ok {
            lemma_checked_expr_fully_typed(env, args[0]);
        }
        lemma_declared_args_te_ok(env, args.subrange(1, args.len() as int));
    }
}

/// Checking the arguments of a call gives every node of each a type.
pub proof fn lemma_checked_args_fully_typed(env: Env, args: Seq<ExprV>, params: Seq<TypeV>)
    requires
        all_declared(env, args),
        typed_args(env, args, params) is Ok,
    ensures
        all_fully_typed(typed_args(env, args, params)->Ok_0),
    decreases args,
{
    if args.len() > 0 {
        let rest = args.subrange(1, args.len() as int);
        let prest = params.subrange(1, params.len() as int);
        lemma_checked_expr_fully_typed(env, args[0]);
        lemma_checked_args_fully_typed(env, rest, prest);
        let a = typed_expr(env, args[0])->Ok_0;
        lemma_convert_fully_typed(a, params[0]);
        let out = typed_args(env, args, params)->Ok_0;
        let tail = typed_args(env, rest, prest)->Ok_0;
        assert(out == seq![convert(a, params[0])] + tail);
        assert(out.subrange(1, out.len() as int) =~= tail);
    }
}


/// Every expression a statement evaluates carries a type at every node: an
/// automatic variable's initializer among them; a static's is a constant.
pub open spec fn stmt_typed(s: StmtV) -> bool
    decreases s,
{
    match s.kind {
        StmtKindV::Return(e) => fully_typed(e),
        StmtKindV::Expression(e) => fully_typed(e),
        StmtKindV::Case { expr, .. } => fully_typed(expr),
        StmtKindV::If(c, y, n) => fully_typed(c) && stmt_typed(*y) && match n {
            Some(nn) => stmt_typed(*nn),
            None => true,
        },
        StmtKindV::Compound(items) => items_typed(items),
        StmtKindV::Label(_, b) => stmt_typed(*b),
        StmtKindV::While { cond, body, .. } => fully_typed(cond) && stmt_typed(*body),
        StmtKindV::DoWhile { body, cond, .. } => fully_typed(cond) && stmt_typed(*body),
        StmtKindV::For { init, cond, post, body, .. } => {
            &&& match init {
                ForInitV::InitDec(d) => var_typed(d),
                ForInitV::InitExp(e) => opt_typed(e),
            }
            &&& opt_typed(cond)
            &&& opt_typed(post)
            &&& stmt_typed(*body)
        },
        StmtKindV::Switch { scrutinee, body, .. } => fully_typed(scrutinee) && stmt_typed(*body),
        _ => true,
    }
}

pub open spec fn items_typed(items: Seq<BlockItemV>) -> bool
    decreases items,
{
    items.len() == 0 || (item_typed(items[0]) && items_typed(items.subrange(1, items.len() as int)))
}

pub open spec fn item_typed(item: BlockItemV) -> bool
    decreases item,
{
    match item {
        BlockItemV::S(s) => stmt_typed(s),
        BlockItemV::D(DeclV::VarDecl(d)) => var_typed(d),
        _ => true,
    }
}

pub open spec fn opt_typed(e: Option<ExprV>) -> bool {
    e is Some ==> fully_typed(e->0)
}

/// The initializer of an automatic variable is typed throughout.
pub open spec fn var_typed(d: VarDeclV) -> bool {
    d.storage is None && d.init is Some ==> fully_typed(d.init->0)
}

proof fn lemma_checked_opt_typed(env: Env, e: Option<ExprV>)
    requires
        opt_holds(env, e, declared()),
        tc_opt(env, e).1 is Ok,
    ensures
        opt_typed(tc_opt(env, e).0),
{
    match e {
        Some(x) => lemma_checked_expr_fully_typed(env, x),
        None => {},
    }
}

proof fn lemma_checked_local_typed(env: Env, d: VarDeclV)
    requires
        local_holds(env, d, declared()),
        tc_local(env, d).2 is Ok,
    ensures
        var_typed(tc_local(env, d).0),
{
    match local_var(env, d) {
        Ok(Some(sym)) => {
            let env1 = env_with(env, d.identifier, sym);
            if sym.attrs is LocalAttr && d.init is Some {
                lemma_checked_expr_fully_typed(env1, d.init->0);
            }
        },
        _ => {},
    }
}

/// A statement the checker accepts, where every name it uses is in the
/// table when it is checked, comes out with every expression it evaluates
/// typed at every node.
pub proof fn lemma_checked_stmt_typed(env: Env, s: StmtV)
    requires
        stmt_holds(env, s, declared()),
        tc_stmt(env, s).2 is Ok,
    ensures
        stmt_typed(tc_stmt(env, s).0),
    decreases s,
{
    match s.kind {
        StmtKindV::Return(e) => lemma_checked_expr_fully_typed(env, e),
        StmtKindV::Expression(e) => lemma_checked_expr_fully_typed(env, e),
        StmtKindV::Case { expr, .. } => lemma_checked_expr_fully_typed(env, expr),
        StmtKindV::If(c, y, n) => {
            lemma_checked_expr_fully_typed(env, c);
            lemma_checked_stmt_typed(env, *y);
            match n {
                Some(nn) => lemma_checked_stmt_typed(tc_stmt(env, *y).1, *nn),
                None => {},
            }
        },
        StmtKindV::Compound(items) => lemma_checked_items_typed(env, items),
        StmtKindV::Label(_, b) => lemma_checked_stmt_typed(env, *b),
        StmtKindV::While { cond, body, .. } => {
            lemma_checked_expr_fully_typed(env, cond);
            lemma_checked_stmt_typed(env, *body);
        },
        StmtKindV::DoWhile { body, cond, .. } => {
            lemma_checked_stmt_typed(env, *body);
            lemma_checked_expr_fully_typed(tc_stmt(env, *body).1, cond);
        },
        StmtKindV::For { init, cond, post, body, .. } => {
            let (i2, env1, ri) = tc_for_init(env, init);
            match init {
                ForInitV::InitDec(d) => lemma_checked_local_typed(env, d),
                ForInitV::InitExp(e) => lemma_checked_opt_typed(env, e),
            }
            lemma_checked_opt_typed(env1, cond);
            lemma_checked_opt_typed(env1, post);
            lemma_checked_stmt_typed(env1, *body);
        },
        StmtKindV::Switch { scrutinee, body, .. } => {
            lemma_checked_expr_fully_typed(env, scrutinee);
            lemma_checked_stmt_typed(env, *body);
        },
        _ => {},
    }
}

#[verifier::rlimit(40)]
pub proof fn lemma_checked_items_typed(env: Env, items: Seq<BlockItemV>)
    requires
        items_hold(env, items, declared()),
        tc_items(env, items).2 is Ok,
    ensures
        items_typed(tc_items(env, items).0),
    decreases items,
{
    if items.len() > 0 {
        let (i0, env1, r0) = tc_item(env, items[0]);
        let rest = items.subrange(1, items.len() as int);
        assert(item_holds(env, items[0], declared()));
        assert(items_hold(env1, rest, declared()));
        match items[0] {
            BlockItemV::S(st) => lemma_checked_stmt_typed(env, st),
            BlockItemV::D(DeclV::VarDecl(d)) => lemma_checked_local_typed(env, d),
            _ => {},
        }
        assert(item_typed(i0));
        lemma_checked_items_typed(env1, rest);
        let out = tc_items(env, items).0;
        let (r2, _, _) = tc_items(env1, rest);
        assert(out == seq![i0] + r2);
        assert(out[0] == i0);
        assert(out.subrange(1, out.len() as int) =~= r2);
    }
}


/// Every function body among the declarations is typed throughout.
pub open spec fn decl_typed(d: DeclV) -> bool {
    match d {
        DeclV::FuncDecl(f) => f.body is Some ==> items_typed(f.body->0),
        _ => true,
    }
}

/// A program the checker accepts, where every name is in the table when it
/// is used, comes out with every expression its function bodies evaluate
/// typed at every node.
pub proof fn lemma_checked_program_typed(env: Env, ds: Seq<DeclV>)
    requires
        decls_hold(env, ds, declared()),
        tc_decls(env, ds).2 is Ok,
    ensures
        forall|i: int| 0 <= i < tc_decls(env, ds).0.len() ==> decl_typed(#[trigger] tc_decls(env, ds).0[i]),
    decreases ds.len(),
{
    if ds.len() > 0 {
        let (d0, env1, r0) = tc_decl(env, ds[0]);
        match ds[0] {
            DeclV::FuncDecl(f) => match func_decl(env, f) {
                Ok(sym) => match f.body {
                    Some(b) => lemma_checked_items_typed(env_after_func(env, f, sym), b),
                    None => {},
                },
                Err(_) => {},
            },
            _ => {},
        }
        assert(decl_typed(d0));
        let rest = ds.drop_first();
        lemma_checked_program_typed(env1, rest);
        let out = tc_decls(env, ds).0;
        let r2 = tc_decls(env1, rest).0;
        assert(out == seq![d0] + r2);
        assert forall|i: int| 0 <= i < out.len() implies decl_typed(#[trigger] out[i]) by {
            if i > 0 {
                assert(out[i] == r2[i - 1]);
            }
        }
    }
}

/// `env` with `sym` recorded under `n`.
pub open spec fn env_with(env: Env, n: Seq<char>, sym: SymbolV) -> Env {
    |m: Seq<char>| if m == n { Some(sym) } else { env(m) }
}

/// What the declaration `f` leaves recorded, given the entry `sym` made for
/// the function: a definition also records its parameters as locals.
pub open spec fn env_after_func(env: Env, f: FuncDeclV, sym: SymbolV) -> Env {
    |n: Seq<char>| match (f.body, last_index(f.params, n)) {
        (Some(_), Some(k)) => Some(SymbolV { ident: n, datatype: param_type(f.func_type, k), attrs: IdentAttrsV::LocalAttr }),
        _ => if n == f.identifier { Some(sym) } else { env(n) },
    }
}

/// An expression checked: typed, or left as it was with the error.
pub open spec fn tc_expr(env: Env, e: ExprV) -> (ExprV, Result<(), SemanticErrorV>) {
    match typed_expr(env, e) {
        Ok(v) => (v, Ok(())),
        Err(x) => (e, Err(x)),
    }
}

pub open spec fn tc_opt(env: Env, e: Option<ExprV>) -> (Option<ExprV>, Result<(), SemanticErrorV>) {
    match e {
        Some(x) => (Some(tc_expr(env, x).0), tc_expr(env, x).1),
        None => (None, Ok(())),
    }
}

/// A block-scope variable declaration checked: what it records, then its
/// initializer typed where it declares a local variable.
pub open spec fn tc_local(env: Env, d: VarDeclV) -> (VarDeclV, Env, Result<(), SemanticErrorV>) {
    match local_var(env, d) {
        Err(e) => (d, env, Err(e)),
        Ok(rec) => {
            let env1 = match rec {
                Some(sym) => env_with(env, d.identifier, sym),
                None => env,
            };
            match (rec, d.init) {
                (Some(sym), Some(e)) if sym.attrs is LocalAttr => match typed_expr(env1, e) {
                    Ok(v) => (VarDeclV { init: Some(v), ..d }, env1, Ok(())),
                    Err(x) => (d, env1, Err(x)),
                },
                _ => (d, env1, Ok(())),
            }
        },
    }
}

/// A function declaration recorded.
pub open spec fn tc_func(env: Env, f: FuncDeclV) -> (Env, Result<(), SemanticErrorV>) {
    match func_decl(env, f) {
        Ok(sym) => (env_after_func(env, f, sym), Ok(())),
        Err(e) => (env, Err(e)),
    }
}

/// The initializer of a `for` loop checked.
pub open spec fn tc_for_init(env: Env, init: ForInitV) -> (ForInitV, Env, Result<(), SemanticErrorV>) {
    match init {
        ForInitV::InitDec(d) => {
            let (d2, env1, r) = tc_local(env, d);
            (ForInitV::InitDec(d2), env1, r)
        },
        ForInitV::InitExp(e) => (ForInitV::InitExp(tc_opt(env, e).0), env, tc_opt(env, e).1),
    }
}

/// A statement checked inside a function body: its expressions typed and its
/// declarations recorded in the order they are written, up to the first error.
pub open spec fn tc_stmt(env: Env, s: StmtV) -> (StmtV, Env, Result<(), SemanticErrorV>)
    decreases s,
{
    let sp = s.span;
    match s.kind {
        StmtKindV::Return(e) => (StmtV { kind: StmtKindV::Return(tc_expr(env, e).0), span: sp }, env, tc_expr(env, e).1),
        StmtKindV::Expression(e) => (
            StmtV { kind: StmtKindV::Expression(tc_expr(env, e).0), span: sp },
            env,
            tc_expr(env, e).1,
        ),
        StmtKindV::Case { expr, lab } => (
            StmtV { kind: StmtKindV::Case { expr: tc_expr(env, expr).0, lab }, span: sp },
            env,
            tc_expr(env, expr).1,
        ),
        StmtKindV::If(c, y, n) => {
            let (c2, rc) = tc_expr(env, c);
            if rc is Err {
                (StmtV { kind: StmtKindV::If(c2, y, n), span: sp }, env, rc)
            } else {
                let (y2, env1, ry) = tc_stmt(env, *y);
                if ry is Err {
                    (StmtV { kind: StmtKindV::If(c2, Box::new(y2), n), span: sp }, env1, ry)
                } else {
                    match n {
                        None => (StmtV { kind: StmtKindV::If(c2, Box::new(y2), None), span: sp }, env1, ry),
                        Some(nn) => {
                            let (n2, env2, rn) = tc_stmt(env1, *nn);
                            (StmtV { kind: StmtKindV::If(c2, Box::new(y2), Some(Box::new(n2))), span: sp }, env2, rn)
                        },
                    }
                }
            }
        },
        StmtKindV::Compound(items) => {
            let (i2, env1, r) = tc_items(env, items);
            (StmtV { kind: StmtKindV::Compound(i2), span: sp }, env1, r)
        },
        StmtKindV::Label(l, b) => {
            let (b2, env1, r) = tc_stmt(env, *b);
            (StmtV { kind: StmtKindV::Label(l, Box::new(b2)), span: sp }, env1, r)
        },
        StmtKindV::While { cond, body, lab } => {
            let (c2, rc) = tc_expr(env, cond);
            if rc is Err {
                (StmtV { kind: StmtKindV::While { cond: c2, body, lab }, span: sp }, env, rc)
            } else {
                let (b2, env1, r) = tc_stmt(env, *body);
                (StmtV { kind: StmtKindV::While { cond: c2, body: Box::new(b2), lab }, span: sp }, env1, r)
            }
        },
        StmtKindV::DoWhile { body, cond, lab } => {
            let (b2, env1, r) = tc_stmt(env, *body);
            if r is Err {
                (StmtV { kind: StmtKindV::DoWhile { body: Box::new(b2), cond, lab }, span: sp }, env1, r)
            } else {
                let (c2, rc) = tc_expr(env1, cond);
                (StmtV { kind: StmtKindV::DoWhile { body: Box::new(b2), cond: c2, lab }, span: sp }, env1, rc)
            }
        },
        StmtKindV::For { init, cond, post, body, lab } => {
            let (i2, env1, ri) = tc_for_init(env, init);
            if ri is Err {
                (StmtV { kind: StmtKindV::For { init: i2, cond, post, body, lab }, span: sp }, env1, ri)
            } else {
                let (c2, rc) = tc_opt(env1, cond);
                if rc is Err {
                    (StmtV { kind: StmtKindV::For { init: i2, cond: c2, post, body, lab }, span: sp }, env1, rc)
                } else {
                    let (p2, rp) = tc_opt(env1, post);
                    if rp is Err {
                        (StmtV { kind: StmtKindV::For { init: i2, cond: c2, post: p2, body, lab }, span: sp }, env1, rp)
                    } else {
                        let (b2, env2, rb) = tc_stmt(env1, *body);
                        (
                            StmtV { kind: StmtKindV::For { init: i2, cond: c2, post: p2, body: Box::new(b2), lab }, span: sp },
                            env2,
                            rb,
                        )
                    }
                }
            }
        },
        StmtKindV::Switch { scrutinee, body, lab, cases } => {
            let (s2, rs) = tc_expr(env, scrutinee);
            if rs is Err {
                (StmtV { kind: StmtKindV::Switch { scrutinee: s2, body, lab, cases }, span: sp }, env, rs)
            } else {
                let (b2, env1, r) = tc_stmt(env, *body);
                (StmtV { kind: StmtKindV::Switch { scrutinee: s2, body: Box::new(b2), lab, cases }, span: sp }, env1, r)
            }
        },
        _ => (s, env, Ok(())),
    }
}

/// The items of a block checked in order, up to the first error.
pub open spec fn tc_items(env: Env, items: Seq<BlockItemV>) -> (Seq<BlockItemV>, Env, Result<(), SemanticErrorV>)
    decreases items,
{
    if items.len() == 0 {
        (items, env, Ok(()))
    } else {
        let (i0, env1, r0) = tc_item(env, items[0]);
        let rest = items.subrange(1, items.len() as int);
        if r0 is Err {
            (seq![i0] + rest, env1, r0)
        } else {
            let (r2, env2, r1) = tc_items(env1, rest);
            (seq![i0] + r2, env2, r1)
        }
    }
}

/// One item of a block checked; a function declaration in a block is
/// recorded, its body (which identifier resolution refuses) is not walked.
pub open spec fn tc_item(env: Env, item: BlockItemV) -> (BlockItemV, Env, Result<(), SemanticErrorV>)
    decreases item,
{
    match item {
        BlockItemV::S(s) => {
            let (s2, env1, r) = tc_stmt(env, s);
            (BlockItemV::S(s2), env1, r)
        },
        BlockItemV::D(DeclV::VarDecl(d)) => {
            let (d2, env1, r) = tc_local(env, d);
            (BlockItemV::D(DeclV::VarDecl(d2)), env1, r)
        },
        BlockItemV::D(DeclV::FuncDecl(f)) => (item, tc_func(env, f).0, tc_func(env, f).1),
    }
}

/// A file-scope declaration checked: a variable recorded; a function
/// recorded, then its body checked.
pub open spec fn tc_decl(env: Env, d: DeclV) -> (DeclV, Env, Result<(), SemanticErrorV>) {
    match d {
        DeclV::VarDecl(v) => match global_var(env, v) {
            Ok(sym) => (d, env_with(env, v.identifier, sym), Ok(())),
            Err(e) => (d, env, Err(e)),
        },
        DeclV::FuncDecl(f) => match func_decl(env, f) {
            Err(e) => (d, env, Err(e)),
            Ok(sym) => {
                let env1 = env_after_func(env, f, sym);
                match f.body {
                    None => (d, env1, Ok(())),
                    Some(b) => {
                        let (b2, env2, r) = tc_items(env1, b);
                        (DeclV::FuncDecl(FuncDeclV { body: Some(b2), ..f }), env2, r)
                    },
                }
            },
        },
    }
}

/// The declarations of a program checked in order, up to the first error.
pub open spec fn tc_decls(env: Env, ds: Seq<DeclV>) -> (Seq<DeclV>, Env, Result<(), SemanticErrorV>)
    decreases ds.len(),
{
    if ds.len() == 0 {
        (ds, env, Ok(()))
    } else {
        let (d0, env1, r0) = tc_decl(env, ds[0]);
        let rest = ds.drop_first();
        if r0 is Err {
            (seq![d0] + rest, env1, r0)
        } else {
            let (r2, env2, r1) = tc_decls(env1, rest);
            (seq![d0] + r2, env2, r1)
        }
    }
}


/// A property of an expression checked with a table.
pub type ExprProp = spec_fn(Env, ExprV) -> bool;

/// The checker can type the expression with the table: see [`te_ok`].
pub open spec fn can_type() -> ExprProp {
    |env: Env, e: ExprV| te_ok(env, e)
}

/// Every name of the expression is in the table: see [`names_declared`].
pub open spec fn declared() -> ExprProp {
    |env: Env, e: ExprV| names_declared(env, e)
}

pub open spec fn opt_holds(env: Env, e: Option<ExprV>, p: ExprProp) -> bool {
    e is Some ==> p(env, e->0)
}

/// `p` holds of the initializer of a block-scope declaration, with the
/// table it is checked with, where the checker types it.
pub open spec fn local_holds(env: Env, d: VarDeclV, p: ExprProp) -> bool {
    match local_var(env, d) {
        Ok(Some(sym)) => (sym.attrs is LocalAttr && d.init is Some) ==> p(env_with(env, d.identifier, sym), d.init->0),
        _ => true,
    }
}

pub open spec fn for_init_holds(env: Env, init: ForInitV, p: ExprProp) -> bool {
    match init {
        ForInitV::InitDec(d) => local_holds(env, d, p),
        ForInitV::InitExp(e) => opt_holds(env, e, p),
    }
}

/// `p` holds of every expression that checking `s` types, each with the
/// table it is checked with, up to the first error.
pub open spec fn stmt_holds(env: Env, s: StmtV, p: ExprProp) -> bool
    decreases s,
{
    match s.kind {
        StmtKindV::Return(e) => p(env, e),
        StmtKindV::Expression(e) => p(env, e),
        StmtKindV::Case { expr, .. } => p(env, expr),
        StmtKindV::If(c, y, n) => p(env, c) && (tc_expr(env, c).1 is Ok ==> stmt_holds(env, *y, p) && (tc_stmt(env, *y).2 is Ok
            ==> match n {
            Some(nn) => stmt_holds(tc_stmt(env, *y).1, *nn, p),
            None => true,
        })),
        StmtKindV::Compound(items) => items_hold(env, items, p),
        StmtKindV::Label(_, b) => stmt_holds(env, *b, p),
        StmtKindV::While { cond, body, .. } => p(env, cond) && (tc_expr(env, cond).1 is Ok ==> stmt_holds(env, *body, p)),
        StmtKindV::DoWhile { body, cond, .. } => stmt_holds(env, *body, p) && (tc_stmt(env, *body).2 is Ok ==> p(
            tc_stmt(env, *body).1,
            cond,
        )),
        StmtKindV::For { init, cond, post, body, .. } => for_init_holds(env, init, p) && (tc_for_init(env, init).2 is Ok ==> {
            let env1 = tc_for_init(env, init).1;
            opt_holds(env1, cond, p) && (tc_opt(env1, cond).1 is Ok ==> opt_holds(env1, post, p) && (tc_opt(env1, post).1 is Ok
                ==> stmt_holds(env1, *body, p)))
        }),
        StmtKindV::Switch { scrutinee, body, .. } => p(env, scrutinee) && (tc_expr(env, scrutinee).1 is Ok ==> stmt_holds(
            env,
            *body,
            p,
        )),
        _ => true,
    }
}

pub open spec fn items_hold(env: Env, items: Seq<BlockItemV>, p: ExprProp) -> bool
    decreases items,
{
    items.len() == 0 || (item_holds(env, items[0], p) && (tc_item(env, items[0]).2 is Ok ==> items_hold(
        tc_item(env, items[0]).1,
        items.subrange(1, items.len() as int),
        p,
    )))
}

pub open spec fn item_holds(env: Env, item: BlockItemV, p: ExprProp) -> bool
    decreases item,
{
    match item {
        BlockItemV::S(s) => stmt_holds(env, s, p),
        BlockItemV::D(DeclV::VarDecl(d)) => local_holds(env, d, p),
        _ => true,
    }
}

/// `p` holds of every expression that checking a file-scope declaration types.
pub open spec fn decl_holds(env: Env, d: DeclV, p: ExprProp) -> bool {
    match d {
        DeclV::FuncDecl(f) => match func_decl(env, f) {
            Ok(sym) => f.body is Some ==> items_hold(env_after_func(env, f, sym), f.body->0, p),
            Err(_) => true,
        },
        _ => true,
    }
}

/// `p` holds of every expression that checking the program types, up to
/// the first error.
pub open spec fn decls_hold(env: Env, ds: Seq<DeclV>, p: ExprProp) -> bool
    decreases ds.len(),
{
    ds.len() == 0 || (decl_holds(env, ds[0], p) && (tc_decl(env, ds[0]).2 is Ok ==> decls_hold(
        tc_decl(env, ds[0]).1,
        ds.drop_first(),
        p,
    )))
}

impl TypeChecker {
    /// Whether the checker can type `e` with the current table (see [`te_ok`]).
    fn expr_ok(&self, e: &Expression) -> (r: bool)
        ensures
            r == te_ok(self.symbols.env(), e@),
        decreases e,
    {
        match &e.kind {
            ExpressionKind::Cast(_, i) => self.expr_ok(i),
            ExpressionKind::Unary(op, i) => {
                if !self.expr_ok(i) {
                    return false;
                }
                if *op == UnaryOp::Not {
                    return true;
                }
                match self.typed(i) {
                    Ok(x) => x.expression_type.is_some(),
                    Err(_) => true,
                }
            },
            ExpressionKind::PrefixIncrement(i) | ExpressionKind::PostfixIncrement(i) | ExpressionKind::PrefixDecrement(i)
            | ExpressionKind::PostfixDecrement(i) => {
                if !self.expr_ok(i) {
                    return false;
                }
                match self.typed(i) {
                    Ok(x) => x.expression_type.is_some(),
                    Err(_) => true,
                }
            },
            ExpressionKind::Assignment(l, r) => {
                if let ExpressionKind::FunctionCall(ident, _) = &l.kind {
                    assert(l@.kind->FunctionCall_0 == ident@);
                    return true;
                }
                if !self.expr_ok(l) {
                    return false;
                }
                let l2 = match self.typed(l) {
                    Ok(x) => x,
                    Err(_) => return true,
                };
                if !self.expr_ok(r) {
                    return false;
                }
                let r2 = match self.typed(r) {
                    Ok(x) => x,
                    Err(_) => return true,
                };
                l2.expression_type.is_some() && r2.expression_type.is_some()
            },
            ExpressionKind::Binary(op, l, r) => {
                if !self.expr_ok(l) {
                    return false;
                }
                let l2 = match self.typed(l) {
                    Ok(x) => x,
                    Err(_) => return true,
                };
                if !self.expr_ok(r) {
                    return false;
                }
                let r2 = match self.typed(r) {
                    Ok(x) => x,
                    Err(_) => return true,
                };
                matches!(op, BinaryOp::LogicalAnd | BinaryOp::LogicalOr) || (l2.expression_type.is_some()
                    && r2.expression_type.is_some())
            },
            ExpressionKind::Conditional(c, a, b) => {
                if !self.expr_ok(a) {
                    return false;
                }
                let a2 = match self.typed(a) {
                    Ok(x) => x,
                    Err(_) => return true,
                };
                if !self.expr_ok(b) {
                    return false;
                }
                let b2 = match self.typed(b) {
                    Ok(x) => x,
                    Err(_) => return true,
                };
                if !self.expr_ok(c) {
                    return false;
                }
                match self.typed(c) {
                    Ok(_) => a2.expression_type.is_some() && b2.expression_type.is_some(),
                    Err(_) => true,
                }
            },
            ExpressionKind::FunctionCall(n, args) => match self.symbols.get(n) {
                None => true,
                Some(sym) => match &sym.datatype {
                    Type::FuncType { params, .. } => {
                        proof {
                            lemma_params_view(params@);
                            lemma_exprs_view(args@);
                        }
                        if params.len() != args.len() {
                            return true;
                        }
                        let ghost av = exprs_view(args@);
                        assert(av.subrange(0, av.len() as int) =~= av);
                        assert(te_ok(self.symbols.env(), e@) == args_te_ok(self.symbols.env(), av));
                        let mut i: usize = 0;
                        while i < args.len()
                            invariant
                                i <= args@.len(),
                                te_ok(self.symbols.env(), e@) == args_te_ok(self.symbols.env(), av),
                                av == exprs_view(args@),
                                av.len() == args@.len(),
                                forall|j: int| 0 <= j < args@.len() ==> #[trigger] av[j] == args@[j]@,
                                e.kind is FunctionCall && e.kind->FunctionCall_1 == *args,
                                args_te_ok(self.symbols.env(), av) == args_te_ok(
                                    self.symbols.env(),
                                    av.subrange(i as int, av.len() as int),
                                ),
                            decreases args@.len() - i,
                        {
                            proof {
                                vstd::std_specs::vec::axiom_vec_index_decreases(*args, i as int);
                                assert(decreases_to!(*e => args@[i as int]));
                            }
                            let ghost sa = av.subrange(i as int, av.len() as int);
                            assert(sa[0] == av[i as int]);
                            assert(sa.subrange(1, sa.len() as int) =~= av.subrange(i + 1, av.len() as int));
                            if !self.expr_ok(&args[i]) {
                                return false;
                            }
                            match self.typed(&args[i]) {
                                Ok(x) => {
                                    if x.expression_type.is_none() {
                                        return false;
                                    }
                                },
                                Err(_) => return true,
                            }
                            i = i + 1;
                        }
                        assert(av.subrange(i as int, av.len() as int) =~= Seq::<ExprV>::empty());
                        true
                    },
                    _ => true,
                },
            },
            _ => true,
        }
    }

    fn check_expr(&self, e: Expression) -> (r: (Expression, Result<(), SemanticError>, bool))
        ensures
            r.2 == te_ok(self.symbols.env(), e@),
            r.2 ==> r.0@ == tc_expr(self.symbols.env(), e@).0 && unit_view(r.1) == tc_expr(self.symbols.env(), e@).1,
    {
        if !self.expr_ok(&e) {
            return (e, Ok(()), false);
        }
        let mut e = e;
        let r = self.type_expression(&mut e);
        (e, r, true)
    }

    fn check_opt(&self, e: Option<Expression>) -> (r: (Option<Expression>, Result<(), SemanticError>, bool))
        ensures
            r.2 == opt_holds(self.symbols.env(), opt_expr_view(e), can_type()),
            r.2 ==> opt_expr_view(r.0) == tc_opt(self.symbols.env(), opt_expr_view(e)).0 && unit_view(r.1) == tc_opt(
                self.symbols.env(),
                opt_expr_view(e),
            ).1,
    {
        match e {
            Some(x) => {
                let (x2, r, ok) = self.check_expr(x);
                (Some(x2), r, ok)
            },
            None => (None, Ok(()), true),
        }
    }

    fn check_local(&mut self, d: VarDeclaration) -> (r: (VarDeclaration, Result<(), SemanticError>, bool))
        requires
            old(self).scope_depth != 0,
        ensures
            r.2 == local_holds(old(self).symbols.env(), d@, can_type()),
            r.2 ==> r.0@ == tc_local(old(self).symbols.env(), d@).0 && final(self).symbols.env() == tc_local(
                old(self).symbols.env(),
                d@,
            ).1 && unit_view(r.1) == tc_local(old(self).symbols.env(), d@).2,
            final(self).scope_depth == old(self).scope_depth,
    {
        let ghost env0 = self.symbols.env();
        let ghost dv = d@;
        let mut d = d;
        if !is_extern(&d) && !is_static(&d) && d.init.is_some() {
            let sym = Symbol::new_var(d.identifier.clone(), clone_type(&d.var_type));
            let ghost sv = sym@;
            self.symbols.insert(d.identifier.clone(), sym);
            proof {
                assert(self.symbols.env() =~= env_with(env0, dv.identifier, sv));
            }
            let r = match &mut d.init {
                Some(e) => {
                    if !self.expr_ok(e) {
                        return (d, Ok(()), false);
                    }
                    self.type_expression(e)
                },
                None => Ok(()),
            };
            return (d, r, true);
        }
        let r = self.visit_var_decl(&mut d);
        proof {
            match local_var(env0, dv) {
                Err(e) => {},
                Ok(rec) => {
                    let env1 = match rec {
                        Some(sym) => env_with(env0, dv.identifier, sym),
                        None => env0,
                    };
                    assert(self.symbols.env() =~= env1);
                },
            }
        }
        (d, r, true)
    }

    fn check_func(&mut self, f: &FuncDeclaration) -> (r: Result<(), SemanticError>)
        ensures
            final(self).symbols.env() == tc_func(old(self).symbols.env(), f@).0,
            unit_view(r) == tc_func(old(self).symbols.env(), f@).1,
            final(self).scope_depth == old(self).scope_depth,
    {
        let ghost env0 = self.symbols.env();
        let r = self.visit_func_decl(f);
        proof {
            match func_decl(env0, f@) {
                Ok(sym) => {
                    assert(self.symbols.env() =~= env_after_func(env0, f@, sym));
                },
                Err(e) => {},
            }
        }
        r
    }

    fn check_for_init(&mut self, init: ForInit) -> (r: (ForInit, Result<(), SemanticError>, bool))
        requires
            old(self).scope_depth != 0,
        ensures
            r.2 == for_init_holds(old(self).symbols.env(), for_init_v(init), can_type()),
            r.2 ==> for_init_v(r.0) == tc_for_init(old(self).symbols.env(), for_init_v(init)).0 && final(self).symbols.env()
                == tc_for_init(old(self).symbols.env(), for_init_v(init)).1 && unit_view(r.1) == tc_for_init(
                old(self).symbols.env(),
                for_init_v(init),
            ).2,
            final(self).scope_depth == old(self).scope_depth,
    {
        match init {
            ForInit::InitDec(d) => {
                let (d2, r, ok) = self.check_local(d);
                (ForInit::InitDec(d2), r, ok)
            },
            ForInit::InitExp(e) => {
                let (e2, r, ok) = self.check_opt(e);
                (ForInit::InitExp(e2), r, ok)
            },
        }
    }

    /// Checks a statement inside a function body: types its expressions and
    /// records its declarations in the order they are written.
    pub fn visit_statement(&mut self, statement: &mut Statement) -> (r: Result<(), SemanticError>)
        requires
            old(self).scope_depth != 0,
            stmt_holds(old(self).symbols.env(), old(statement)@, can_type()),
        ensures
            final(statement)@ == tc_stmt(old(self).symbols.env(), old(statement)@).0,
            final(self).symbols.env() == tc_stmt(old(self).symbols.env(), old(statement)@).1,
            unit_view(r) == tc_stmt(old(self).symbols.env(), old(statement)@).2,
            final(self).scope_depth == old(self).scope_depth,
    {
        let mut taken = Statement::new(StatementKind::Null, statement.span);
        std::mem::swap(statement, &mut taken);
        let (st, r, ok) = self.check_owned(taken);
        *statement = st;
        r
    }

    #[verifier::rlimit(40)]
    fn check_owned(&mut self, st: Statement) -> (r: (Statement, Result<(), SemanticError>, bool))
        requires
            old(self).scope_depth != 0,
        ensures
            r.2 == stmt_holds(old(self).symbols.env(), st@, can_type()),
            r.2 ==> r.0@ == tc_stmt(old(self).symbols.env(), st@).0 && final(self).symbols.env() == tc_stmt(
                old(self).symbols.env(),
                st@,
            ).1 && unit_view(r.1) == tc_stmt(old(self).symbols.env(), st@).2,
            final(self).scope_depth == old(self).scope_depth,
        decreases ssz(st@), 2int,
    {
        let span = st.span;
        match st.kind {
            StatementKind::Return(e) => {
                let (e2, r, ok) = self.check_expr(e);
                (Statement::new(StatementKind::Return(e2), span), r, ok)
            },
            StatementKind::Expression(e) => {
                let (e2, r, ok) = self.check_expr(e);
                (Statement::new(StatementKind::Expression(e2), span), r, ok)
            },
            StatementKind::Case { expr, lab } => {
                let (e2, r, ok) = self.check_expr(expr);
                (Statement::new(StatementKind::Case { expr: e2, lab }, span), r, ok)
            },
            StatementKind::If(c, y, n) => self.check_if(c, y, n, span),
            StatementKind::Compound(block) => {
                let (items, r, ok) = self.check_items(block.items);
                (Statement::new(StatementKind::Compound(Block { items }), span), r, ok)
            },
            StatementKind::Label(l, b) => {
                let (b2, r, ok) = self.check_owned(*b);
                (Statement::new(StatementKind::Label(l, Box::new(b2)), span), r, ok)
            },
            StatementKind::While { cond, body, lab } => {
                let (c2, rc, okc) = self.check_expr(cond);
                if !okc {
                    return (Statement::new(StatementKind::Null, span), Ok(()), false);
                }
                match rc {
                    Err(e) => (Statement::new(StatementKind::While { cond: c2, body, lab }, span), Err(e), true),
                    Ok(()) => {
                        let (b2, r, ok) = self.check_owned(*body);
                        (Statement::new(StatementKind::While { cond: c2, body: Box::new(b2), lab }, span), r, ok)
                    },
                }
            },
            StatementKind::DoWhile { body, cond, lab } => {
                let (b2, r, ok) = self.check_owned(*body);
                if !ok {
                    return (Statement::new(StatementKind::Null, span), Ok(()), false);
                }
                match r {
                    Err(e) => (Statement::new(StatementKind::DoWhile { body: Box::new(b2), cond, lab }, span), Err(e), true),
                    Ok(()) => {
                        let (c2, rc, okc) = self.check_expr(cond);
                        (Statement::new(StatementKind::DoWhile { body: Box::new(b2), cond: c2, lab }, span), rc, okc)
                    },
                }
            },
            StatementKind::For { init, cond, post, body, lab } => self.check_for(init, cond, post, body, lab, span),
            StatementKind::Switch { scrutinee, body, lab, cases } => {
                let (s2, rs, oks) = self.check_expr(scrutinee);
                if !oks {
                    return (Statement::new(StatementKind::Null, span), Ok(()), false);
                }
                match rs {
                    Err(e) => (Statement::new(StatementKind::Switch { scrutinee: s2, body, lab, cases }, span), Err(e), true),
                    Ok(()) => {
                        let (b2, r, ok) = self.check_owned(*body);
                        (Statement::new(StatementKind::Switch { scrutinee: s2, body: Box::new(b2), lab, cases }, span), r, ok)
                    },
                }
            },
            other => (Statement::new(other, span), Ok(()), true),
        }
    }

    fn check_if(&mut self, c: Expression, y: Box<Statement>, n: Option<Box<Statement>>, span: Span) -> (r: (
        Statement,
        Result<(), SemanticError>,
        bool,
    ))
        requires
            old(self).scope_depth != 0,
        ensures
            ({
                let sv = (Statement { kind: StatementKind::If(c, y, n), span })@;
                &&& r.2 == stmt_holds(old(self).symbols.env(), sv, can_type())
                &&& r.2 ==> r.0@ == tc_stmt(old(self).symbols.env(), sv).0 && final(self).symbols.env() == tc_stmt(
                    old(self).symbols.env(),
                    sv,
                ).1 && unit_view(r.1) == tc_stmt(old(self).symbols.env(), sv).2
            }),
            final(self).scope_depth == old(self).scope_depth,
        decreases ssz((Statement { kind: StatementKind::If(c, y, n), span })@), 1int,
    {
        let (c2, rc, okc) = self.check_expr(c);
        if !okc {
            return (Statement::new(StatementKind::Null, span), Ok(()), false);
        }
        match rc {
            Err(e) => return (Statement::new(StatementKind::If(c2, y, n), span), Err(e), true),
            Ok(()) => {},
        }
        let (y2, ry, oky) = self.check_owned(*y);
        if !oky {
            return (Statement::new(StatementKind::Null, span), Ok(()), false);
        }
        match ry {
            Err(e) => return (Statement::new(StatementKind::If(c2, Box::new(y2), n), span), Err(e), true),
            Ok(()) => {},
        }
        match n {
            None => (Statement::new(StatementKind::If(c2, Box::new(y2), None), span), Ok(()), true),
            Some(nn) => {
                let (n2, rn, okn) = self.check_owned(*nn);
                (Statement::new(StatementKind::If(c2, Box::new(y2), Some(Box::new(n2))), span), rn, okn)
            },
        }
    }

    #[verifier::rlimit(40)]
    fn check_for(
        &mut self,
        init: ForInit,
        cond: Option<Expression>,
        post: Option<Expression>,
        body: Box<Statement>,
        lab: String,
        span: Span,
    ) -> (r: (Statement, Result<(), SemanticError>, bool))
        requires
            old(self).scope_depth != 0,
        ensures
            ({
                let sv = (Statement { kind: StatementKind::For { init, cond, post, body, lab }, span })@;
                &&& r.2 == stmt_holds(old(self).symbols.env(), sv, can_type())
                &&& r.2 ==> r.0@ == tc_stmt(old(self).symbols.env(), sv).0 && final(self).symbols.env() == tc_stmt(
                    old(self).symbols.env(),
                    sv,
                ).1 && unit_view(r.1) == tc_stmt(old(self).symbols.env(), sv).2
            }),
            final(self).scope_depth == old(self).scope_depth,
        decreases ssz((Statement { kind: StatementKind::For { init, cond, post, body, lab }, span })@), 1int,
    {
        let (i2, ri, oki) = self.check_for_init(init);
        if !oki {
            return (Statement::new(StatementKind::Null, span), Ok(()), false);
        }
        match ri {
            Err(e) => return (Statement::new(StatementKind::For { init: i2, cond, post, body, lab }, span), Err(e), true),
            Ok(()) => {},
        }
        let (c2, rc, okc) = self.check_opt(cond);
        if !okc {
            return (Statement::new(StatementKind::Null, span), Ok(()), false);
        }
        match rc {
            Err(e) => return (Statement::new(StatementKind::For { init: i2, cond: c2, post, body, lab }, span), Err(e), true),
            Ok(()) => {},
        }
        let (p2, rp, okp) = self.check_opt(post);
        if !okp {
            return (Statement::new(StatementKind::Null, span), Ok(()), false);
        }
        match rp {
            Err(e) => return (
                Statement::new(StatementKind::For { init: i2, cond: c2, post: p2, body, lab }, span),
                Err(e),
                true,
            ),
            Ok(()) => {},
        }
        let (b2, rb, okb) = self.check_owned(*body);
        (Statement::new(StatementKind::For { init: i2, cond: c2, post: p2, body: Box::new(b2), lab }, span), rb, okb)
    }

    #[verifier::rlimit(60)]
    fn check_items(&mut self, items: Vec<BlockItem>) -> (r: (Vec<BlockItem>, Result<(), SemanticError>, bool))
        requires
            old(self).scope_depth != 0,
        ensures
            r.2 == items_hold(old(self).symbols.env(), items_view(items@), can_type()),
            r.2 ==> items_view(r.0@) == tc_items(old(self).symbols.env(), items_view(items@)).0 && final(self).symbols.env()
                == tc_items(old(self).symbols.env(), items_view(items@)).1 && unit_view(r.1) == tc_items(
                old(self).symbols.env(),
                items_view(items@),
            ).2,
            final(self).scope_depth == old(self).scope_depth,
        decreases isz(items_view(items@)), 2int,
    {
        let ghost iv = items_view(items@);
        let ghost env0 = self.symbols.env();
        proof {
            lemma_items_view(items@);
        }
        if items.len() == 0 {
            return (items, Ok(()), true);
        }
        let mut rest = items;
        let first = rest.remove(0);
        let ghost rv = items_view(rest@);
        proof {
            lemma_items_view(rest@);
            assert(rv =~= iv.subrange(1, iv.len() as int));
            assert(iv[0] == first@);
            assert(isz(iv) == itsz(iv[0]) + isz(rv));
        }
        let (f2, r0, ok0) = match first {
            BlockItem::S(s) => {
                let (s2, r, ok) = self.check_owned(s);
                (BlockItem::S(s2), r, ok)
            },
            BlockItem::D(Decl::VarDecl(d)) => {
                let (d2, r, ok) = self.check_local(d);
                (BlockItem::D(Decl::VarDecl(d2)), r, ok)
            },
            BlockItem::D(Decl::FuncDecl(f)) => {
                let r = self.check_func(&f);
                (BlockItem::D(Decl::FuncDecl(f)), r, true)
            },
        };
        assert(ok0 == item_holds(env0, iv[0], can_type()));
        if !ok0 {
            return (Vec::new(), Ok(()), false);
        }
        assert(f2@ == tc_item(env0, iv[0]).0);
        match r0 {
            Err(e) => {
                let out = cons_items(f2, rest);
                (out, Err(e), true)
            },
            Ok(()) => {
                let (nr, r1, ok1) = self.check_items(rest);
                let out = cons_items(f2, nr);
                (out, r1, ok1)
            },
        }
    }

    /// Checks one file-scope declaration; a function definition's body is
    /// checked one block deeper.
    fn check_decl(&mut self, d: Decl) -> (r: (Decl, Result<(), SemanticError>, bool))
        requires
            old(self).scope_depth == 0,
        ensures
            r.2 == decl_holds(old(self).symbols.env(), d@, can_type()),
            r.2 ==> r.0@ == tc_decl(old(self).symbols.env(), d@).0 && final(self).symbols.env() == tc_decl(
                old(self).symbols.env(),
                d@,
            ).1 && unit_view(r.1) == tc_decl(old(self).symbols.env(), d@).2,
            final(self).scope_depth == 0,
    {
        let ghost env0 = self.symbols.env();
        match d {
            Decl::VarDecl(v) => {
                let r = self.check_global_var(&v);
                proof {
                    match global_var(env0, v@) {
                        Ok(sym) => {
                            assert(self.symbols.env() =~= env_with(env0, v@.identifier, sym));
                        },
                        Err(e) => {},
                    }
                }
                (Decl::VarDecl(v), r, true)
            },
            Decl::FuncDecl(f) => {
                let r = self.check_func(&f);
                match r {
                    Err(e) => return (Decl::FuncDecl(f), Err(e), true),
                    Ok(()) => {},
                }
                let ghost fv = f@;
                let FuncDeclaration { identifier, func_type, params, body, storage, span } = f;
                match body {
                    None => (
                        Decl::FuncDecl(FuncDeclaration { identifier, func_type, params, body: None, storage, span }),
                        Ok(()),
                        true,
                    ),
                    Some(b) => {
                        self.scope_depth = 1;
                        let (items, r, ok) = self.check_items(b.items);
                        self.scope_depth = 0;
                        let nf = FuncDeclaration { identifier, func_type, params, body: Some(Block { items }), storage, span };
                        assert(nf@ == (FuncDeclV { body: Some(items_view(items@)), ..fv }));
                        (Decl::FuncDecl(nf), r, ok)
                    },
                }
            },
        }
    }
}

/// The view of a `for` initializer.
pub open spec fn for_init_v(init: ForInit) -> ForInitV {
    match init {
        ForInit::InitDec(d) => ForInitV::InitDec(var_decl_view(d)),
        ForInit::InitExp(e) => ForInitV::InitExp(opt_expr_view(e)),
    }
}

/// Checks the declarations in order; `false` where checking one would need
/// the type of an operand that names nothing in the table.
#[verifier::rlimit(40)]
fn check_program(program: &mut Program, symbols: &mut SymbolTable) -> (r: (Result<(), SemanticError>, bool))
    ensures
        r.1 == decls_hold(old(symbols).env(), decls_view(old(program).declarations@), can_type()),
        r.1 ==> decls_view(final(program).declarations@) == tc_decls(old(symbols).env(), decls_view(old(program).declarations@)).0
            && final(symbols).env() == tc_decls(old(symbols).env(), decls_view(old(program).declarations@)).1 && unit_view(r.0)
            == tc_decls(old(symbols).env(), decls_view(old(program).declarations@)).2,
{
    let mut table = SymbolTable::new();
    std::mem::swap(symbols, &mut table);
    let mut checker = TypeChecker::new(table, 0);
    let mut rest: Vec<Decl> = Vec::new();
    std::mem::swap(&mut program.declarations, &mut rest);
    let ghost orig = rest@;
    let ghost dv = decls_view(orig);
    let ghost env0 = checker.symbols.env();
    let mut done: Vec<Decl> = Vec::new();
    assert(dv.subrange(0, dv.len() as int) =~= dv);
    assert(decls_view(done@) =~= Seq::<DeclV>::empty());
    while rest.len() > 0
        invariant
            dv == decls_view(orig),
            orig == old(program).declarations@,
            env0 == old(symbols).env(),
            dv.len() == orig.len(),
            checker.scope_depth == 0,
            done@.len() + rest@.len() == orig.len(),
            rest@ == orig.subrange(done@.len() as int, orig.len() as int),
            decls_hold(env0, dv, can_type()) == decls_hold(
                checker.symbols.env(),
                dv.subrange(done@.len() as int, dv.len() as int),
                can_type(),
            ),
            ({
                let t = tc_decls(checker.symbols.env(), dv.subrange(done@.len() as int, dv.len() as int));
                tc_decls(env0, dv) == (decls_view(done@) + t.0, t.1, t.2)
            }),
        decreases rest@.len(),
    {
        let k = done.len();
        let ghost sub = dv.subrange(k as int, dv.len() as int);
        let ghost envk = checker.symbols.env();
        assert(sub[0] == dv[k as int]);
        assert(sub.drop_first() =~= dv.subrange(k + 1, dv.len() as int));
        let d = rest.remove(0);
        assert(d == orig[k as int]);
        assert(dv[k as int] == d@);
        let ghost old_done = done@;
        let (nd, r, ok) = checker.check_decl(d);
        if !ok {
            program.declarations = done;
            *symbols = checker.symbols;
            return (Ok(()), false);
        }
        done.push(nd);
        assert(decls_view(done@) =~= decls_view(old_done) + seq![nd@]);
        match r {
            Ok(()) => {
                proof {
                    let t = tc_decls(checker.symbols.env(), dv.subrange(k + 1, dv.len() as int));
                    assert(decls_view(old_done) + (seq![nd@] + t.0) =~= decls_view(done@) + t.0);
                }
            },
            Err(e) => {
                let ghost before = done@;
                proof {
                    assert(tc_decls(envk, sub) == (seq![nd@] + sub.drop_first(), checker.symbols.env(), Err::<(), SemanticErrorV>(e@)));
                }
                done.append(&mut rest);
                proof {
                    assert(decls_view(done@) =~= decls_view(before) + decls_view(orig.subrange(k + 1, orig.len() as int)));
                    assert(decls_view(orig.subrange(k + 1, orig.len() as int)) =~= dv.subrange(k + 1, dv.len() as int));
                    assert(decls_view(old_done) + (seq![nd@] + dv.subrange(k + 1, dv.len() as int)) =~= decls_view(done@));
                }
                program.declarations = done;
                *symbols = checker.symbols;
                return (Err(e), true);
            },
        }
    }
    assert(dv.subrange(done@.len() as int, dv.len() as int) =~= Seq::<DeclV>::empty());
    assert(decls_view(done@) + Seq::<DeclV>::empty() =~= decls_view(done@));
    program.declarations = done;
    *symbols = checker.symbols;
    (Ok(()), true)
}

/// Checks every declaration of the program in order, recording what they
/// declare in `symbols`, up to the first error. A name the table does not
/// hold is left untyped; the program must not use one where its type is
/// needed (see [`decls_hold`] and [`te_ok`]).
pub fn type_checking_pass(program: &mut Program, symbols: &mut SymbolTable) -> (r: Result<(), SemanticError>)
    requires
        decls_hold(old(symbols).env(), decls_view(old(program).declarations@), can_type()),
    ensures
        decls_view(final(program).declarations@) == tc_decls(old(symbols).env(), decls_view(old(program).declarations@)).0,
        final(symbols).env() == tc_decls(old(symbols).env(), decls_view(old(program).declarations@)).1,
        unit_view(r) == tc_decls(old(symbols).env(), decls_view(old(program).declarations@)).2,
{
    let (r, ok) = check_program(program, symbols);
    r
}

/// [`type_checking_pass`] where it can run: `None` exactly where checking
/// would need the type of an operand that names nothing in the table.
pub fn try_type_checking_pass(program: &mut Program, symbols: &mut SymbolTable) -> (r: Option<Result<(), SemanticError>>)
    ensures
        r is Some == decls_hold(old(symbols).env(), decls_view(old(program).declarations@), can_type()),
        r matches Some(x) ==> decls_view(final(program).declarations@) == tc_decls(
            old(symbols).env(),
            decls_view(old(program).declarations@),
        ).0 && final(symbols).env() == tc_decls(old(symbols).env(), decls_view(old(program).declarations@)).1
            && unit_view(x) == tc_decls(old(symbols).env(), decls_view(old(program).declarations@)).2,
{
    let (r, ok) = check_program(program, symbols);
    if ok {
        Some(r)
    } else {
        None
    }
}

} // verus!
