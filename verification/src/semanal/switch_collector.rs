use vstd::prelude::*;

use crate::lexer::Span;
use crate::parser::ast::{
    Decl, DeclV, FuncDeclV, FuncDeclaration, Program, clone_expr, opt_expr_view, lemma_items_view, cases_view, items_view, BinaryOp, Block, BlockItem, BlockItemV, Const, ConstV, ExprKindV, ExprV, Expression, ExpressionKind, Statement,
    StatementKind, StmtKindV, StmtV, UnaryOp,
};
use crate::semanal::{SemanticError, SemanticErrorV};
use crate::types::{Type, TypeV, clone_type};
use crate::parser::stmt::decls_view;

verus! {

broadcast use vstd::std_specs::vec::group_vec_axioms, vstd::seq::group_seq_axioms;

/// Division rounding toward zero.
pub open spec fn tdiv(a: int, b: int) -> int {
    if a >= 0 {
        a / b
    } else {
        -((-a) / b)
    }
}

/// The remainder of division rounding toward zero; it has the sign of `a`.
pub open spec fn trem(a: int, b: int) -> int {
    if a >= 0 {
        a % b
    } else {
        -((-a) % b)
    }
}

pub open spec fn in_i128(v: int) -> bool {
    i128::MIN <= v <= i128::MAX
}

pub open spec fn flag(b: bool) -> i128 {
    if b {
        1
    } else {
        0
    }
}

/// The value of a constant expression over 128-bit integers: integer
/// constants, and unary and binary operators on constant operands; the
/// left operand is evaluated first, and a failure there stops evaluation.
pub open spec fn eval(e: ExprV) -> Option<i128>
    decreases e,
{
    match e.kind {
        ExprKindV::Constant(c) => match c {
            ConstV::Int(i) => Some(i as i128),
            ConstV::Long(l) => Some(l as i128),
            ConstV::UInt(u) => Some(u as i128),
            ConstV::ULong(u) => Some(u as i128),
            ConstV::Double(_) => None,
        },
        ExprKindV::Unary(op, x) => match eval(*x) {
            Some(v) => Some(
                match op {
                    UnaryOp::Negate => (-v) as i128,
                    UnaryOp::Complement => !v,
                    UnaryOp::Not => flag(v == 0),
                },
            ),
            None => None,
        },
        ExprKindV::Binary(op, l, r) => match eval(*l) {
            None => None,
            Some(a) => match eval(*r) {
                None => None,
                Some(b) => match op {
                    BinaryOp::Add => Some((a + b) as i128),
                    BinaryOp::Subtract => Some((a - b) as i128),
                    BinaryOp::Multiply => Some((a * b) as i128),
                    BinaryOp::Divide => if b == 0 { None } else { Some(tdiv(a as int, b as int) as i128) },
                    BinaryOp::Remainder => if b == 0 { None } else { Some(trem(a as int, b as int) as i128) },
                    BinaryOp::LeftShift => Some(a << (b as u32)),
                    BinaryOp::RightShift => Some(a >> (b as u32)),
                    BinaryOp::LessThan => Some(flag(a < b)),
                    BinaryOp::LessOrEqual => Some(flag(a <= b)),
                    BinaryOp::GreaterThan => Some(flag(a > b)),
                    BinaryOp::GreaterOrEqual => Some(flag(a >= b)),
                    BinaryOp::Equal => Some(flag(a == b)),
                    BinaryOp::NotEqual => Some(flag(a != b)),
                    BinaryOp::BitwiseAnd => Some(a & b),
                    BinaryOp::BitwiseXor => Some(a ^ b),
                    BinaryOp::BitwiseOr => Some(a | b),
                    BinaryOp::LogicalAnd => Some(flag(a != 0 && b != 0)),
                    BinaryOp::LogicalOr => Some(flag(a != 0 || b != 0)),
                    _ => None,
                },
            },
        },
        _ => None,
    }
}

/// The evaluation of `e` stays within 128-bit arithmetic: no result
/// overflows, no `MIN / -1`, and shift counts are below 128.
pub open spec fn eval_safe(e: ExprV) -> bool
    decreases e,
{
    match e.kind {
        ExprKindV::Unary(op, x) => eval_safe(*x) && (op is Negate && eval(*x) is Some ==> eval(*x)->0 != i128::MIN),
        ExprKindV::Binary(op, l, r) => eval_safe(*l) && (eval(*l) is Some ==> eval_safe(*r) && (eval(*r) is Some ==> {
            let a = eval(*l)->0 as int;
            let b = eval(*r)->0 as int;
            match op {
                BinaryOp::Add => in_i128(a + b),
                BinaryOp::Subtract => in_i128(a - b),
                BinaryOp::Multiply => in_i128(a * b),
                BinaryOp::Divide | BinaryOp::Remainder => !(a == i128::MIN && b == -1),
                BinaryOp::LeftShift | BinaryOp::RightShift => 0 <= b < 128,
                _ => true,
            }
        })),
        _ => true,
    }
}

/// The value of a constant case expression, if it is one.
fn eval_constant(expr: &Expression) -> (r: Option<i128>)
    requires
        eval_safe(expr@),
    ensures
        r == eval(expr@),
    decreases expr,
{
    match &expr.kind {
        ExpressionKind::Constant(c) => match c {
            Const::Int(i) => Some(*i as i128),
            Const::Long(i) => Some(*i as i128),
            Const::UInt(i) => Some(*i as i128),
            Const::ULong(i) => Some(*i as i128),
            Const::Double(_) => None,
        },
        ExpressionKind::Unary(op, inner) => {
            let val = match eval_constant(inner) {
                Some(v) => v,
                None => return None,
            };
            match op {
                UnaryOp::Negate => Some(-val),
                UnaryOp::Complement => Some(!val),
                UnaryOp::Not => Some(if val == 0 { 1 } else { 0 }),
            }
        },
        ExpressionKind::Binary(op, left, right) => {
            let l = match eval_constant(left) {
                Some(v) => v,
                None => return None,
            };
            let r = match eval_constant(right) {
                Some(v) => v,
                None => return None,
            };
            match op {
                BinaryOp::Add => Some(l + r),
                BinaryOp::Subtract => Some(l - r),
                BinaryOp::Multiply => Some(l * r),
                BinaryOp::Divide => if r == 0 { None } else { Some(l / r) },
                BinaryOp::Remainder => if r == 0 { None } else { Some(l % r) },
                BinaryOp::LeftShift => Some(l << (r as u32)),
                BinaryOp::RightShift => Some(l >> (r as u32)),
                BinaryOp::LessThan => Some(if l < r { 1 } else { 0 }),
                BinaryOp::LessOrEqual => Some(if l <= r { 1 } else { 0 }),
                BinaryOp::GreaterThan => Some(if l > r { 1 } else { 0 }),
                BinaryOp::GreaterOrEqual => Some(if l >= r { 1 } else { 0 }),
                BinaryOp::Equal => Some(if l == r { 1 } else { 0 }),
                BinaryOp::NotEqual => Some(if l != r { 1 } else { 0 }),
                BinaryOp::BitwiseAnd => Some(l & r),
                BinaryOp::BitwiseXor => Some(l ^ r),
                BinaryOp::BitwiseOr => Some(l | r),
                BinaryOp::LogicalAnd => Some(if l != 0 && r != 0 { 1 } else { 0 }),
                BinaryOp::LogicalOr => Some(if l != 0 || r != 0 { 1 } else { 0 }),
                _ => None,
            }
        },
        _ => None,
    }
}


/// A case value as a constant of the scrutinee's integer type, truncated.
pub open spec fn trunc_const(v: i128, t: TypeV) -> ConstV {
    match t {
        TypeV::Int => ConstV::Int(v as i32),
        TypeV::Long => ConstV::Long(v as i64),
        TypeV::UInt => ConstV::UInt(v as u32),
        _ => ConstV::ULong(v as u64),
    }
}

/// Cases found so far joined with those a later part gives, or its error.
pub open spec fn join(
    c: Seq<(Option<ExprV>, Seq<char>)>,
    r: Result<Seq<(Option<ExprV>, Seq<char>)>, SemanticErrorV>,
) -> Result<Seq<(Option<ExprV>, Seq<char>)>, SemanticErrorV> {
    match r {
        Ok(c2) => Ok(c + c2),
        Err(e) => Err(e),
    }
}

/// The cases of a switch body: those of a block (see [`sc_items`]), or the
/// body itself when it is a `case` or a `default`; with the body as it is left.
pub open spec fn sc_switch(s: StmtV, t: TypeV) -> (StmtV, Result<Seq<(Option<ExprV>, Seq<char>)>, SemanticErrorV>)
    decreases s,
{
    match s.kind {
        StmtKindV::Compound(items) => {
            let (ni, r) = sc_items(items, t);
            (StmtV { kind: StmtKindV::Compound(ni), ..s }, r)
        },
        StmtKindV::Case { expr, lab } => (s, Ok(seq![(Some(expr), lab)])),
        StmtKindV::Default { lab } => (s, Ok(seq![(None, lab)])),
        _ => (s, Ok(Seq::empty())),
    }
}

/// The cases of the items of a block, in order, and the items as they are
/// left; the first error stops the search.
pub open spec fn sc_items(items: Seq<BlockItemV>, t: TypeV) -> (
    Seq<BlockItemV>,
    Result<Seq<(Option<ExprV>, Seq<char>)>, SemanticErrorV>,
)
    decreases items,
{
    if items.len() == 0 {
        (items, Ok(Seq::empty()))
    } else {
        let (i0, r0) = sc_item(items[0], t);
        let rest = items.subrange(1, items.len() as int);
        match r0 {
            Err(e) => (seq![i0] + rest, Err(e)),
            Ok(c0) => {
                let (nr, r1) = sc_items(rest, t);
                (seq![i0] + nr, join(c0, r1))
            },
        }
    }
}

pub open spec fn sc_item(item: BlockItemV, t: TypeV) -> (BlockItemV, Result<Seq<(Option<ExprV>, Seq<char>)>, SemanticErrorV>)
    decreases item,
{
    match item {
        BlockItemV::S(s) => {
            let (ns, r) = sc_stmt(s, t);
            (BlockItemV::S(ns), r)
        },
        _ => (item, Ok(Seq::empty())),
    }
}

/// The cases of a statement of a block: a `case` is evaluated and its
/// expression replaced by the constant value, truncated to the scrutinee's
/// type; nested blocks, branches, labelled statements and loop bodies are
/// searched; nested switches are not.
pub open spec fn sc_stmt(s: StmtV, t: TypeV) -> (StmtV, Result<Seq<(Option<ExprV>, Seq<char>)>, SemanticErrorV>)
    decreases s,
{
    match s.kind {
        StmtKindV::Case { expr, lab } => match eval(expr) {
            Some(v) => {
                let e2 = ExprV { kind: ExprKindV::Constant(trunc_const(v, t)), ty: Some(t), span: expr.span };
                (StmtV { kind: StmtKindV::Case { expr: e2, lab }, ..s }, Ok(seq![(Some(e2), lab)]))
            },
            None => (s, Err(SemanticErrorV::NonConstantCase(expr.span))),
        },
        StmtKindV::Default { lab } => (s, Ok(seq![(None, lab)])),
        StmtKindV::Compound(items) => {
            let (ni, r) = sc_items(items, t);
            (StmtV { kind: StmtKindV::Compound(ni), ..s }, r)
        },
        StmtKindV::If(c, y, n) => {
            let (ny, ry) = sc_switch(*y, t);
            match ry {
                Err(e) => (StmtV { kind: StmtKindV::If(c, Box::new(ny), n), ..s }, Err(e)),
                Ok(cy) => match n {
                    Some(nn) => {
                        let (nn2, rn) = sc_switch(*nn, t);
                        (StmtV { kind: StmtKindV::If(c, Box::new(ny), Some(Box::new(nn2))), ..s }, join(cy, rn))
                    },
                    None => (StmtV { kind: StmtKindV::If(c, Box::new(ny), None), ..s }, Ok(cy)),
                },
            }
        },
        StmtKindV::Label(l, b) => {
            let (nb, r) = sc_switch(*b, t);
            (StmtV { kind: StmtKindV::Label(l, Box::new(nb)), ..s }, r)
        },
        StmtKindV::For { init, cond, post, body, lab } => {
            let (nb, r) = sc_switch(*body, t);
            (StmtV { kind: StmtKindV::For { init, cond, post, body: Box::new(nb), lab }, ..s }, r)
        },
        StmtKindV::While { cond, body, lab } => {
            let (nb, r) = sc_switch(*body, t);
            (StmtV { kind: StmtKindV::While { cond, body: Box::new(nb), lab }, ..s }, r)
        },
        StmtKindV::DoWhile { body, cond, lab } => {
            let (nb, r) = sc_switch(*body, t);
            (StmtV { kind: StmtKindV::DoWhile { body: Box::new(nb), cond, lab }, ..s }, r)
        },
        _ => (s, Ok(Seq::empty())),
    }
}

/// Every `case` expression in the statement evaluates within 128-bit arithmetic.
pub open spec fn cases_safe(s: StmtV) -> bool
    decreases s,
{
    match s.kind {
        StmtKindV::Case { expr, .. } => eval_safe(expr),
        StmtKindV::Compound(items) => items_safe(items),
        StmtKindV::If(_, y, n) => cases_safe(*y) && match n {
            Some(nn) => cases_safe(*nn),
            None => true,
        },
        StmtKindV::Label(_, b) => cases_safe(*b),
        StmtKindV::For { body, .. } | StmtKindV::While { body, .. } | StmtKindV::DoWhile { body, .. }
        | StmtKindV::Switch { body, .. } => cases_safe(*body),
        _ => true,
    }
}

pub open spec fn items_safe(items: Seq<BlockItemV>) -> bool
    decreases items,
{
    items.len() == 0 || (item_safe(items[0]) && items_safe(items.subrange(1, items.len() as int)))
}

pub open spec fn item_safe(item: BlockItemV) -> bool
    decreases item,
{
    match item {
        BlockItemV::S(s) => cases_safe(s),
        _ => true,
    }
}

pub open spec fn res_view(r: Result<Vec<(Option<Expression>, String)>, SemanticError>) -> Result<
    Seq<(Option<ExprV>, Seq<char>)>,
    SemanticErrorV,
> {
    match r {
        Ok(v) => Ok(cases_view(v@)),
        Err(e) => Err(e@),
    }
}


/// The value as a constant of the integer type `t`, truncated.
fn truncate_const(value: i128, t: &Type) -> (r: Const)
    requires
        t@.spec_is_integer(),
    ensures
        r@ == trunc_const(value, t@),
{
    match t {
        Type::Int => Const::Int(value as i32),
        Type::Long => Const::Long(value as i64),
        Type::UInt => Const::UInt(value as u32),
        _ => Const::ULong(value as u64),
    }
}

/// One case value and its label.
fn one_case(e: Option<Expression>, lab: String) -> (r: Vec<(Option<Expression>, String)>)
    ensures
        cases_view(r@) == seq![(opt_expr_view(e), lab@)],
{
    let v = vec![(e, lab)];
    assert(cases_view(v@) =~= seq![(opt_expr_view(v@[0].0), v@[0].1@)]);
    v
}

fn no_cases() -> (r: Vec<(Option<Expression>, String)>)
    ensures
        cases_view(r@) == Seq::<(Option<ExprV>, Seq<char>)>::empty(),
{
    let v: Vec<(Option<Expression>, String)> = Vec::new();
    assert(cases_view(v@) =~= Seq::<(Option<ExprV>, Seq<char>)>::empty());
    v
}

/// `a` followed by `b`.
fn append_cases(a: Vec<(Option<Expression>, String)>, b: Vec<(Option<Expression>, String)>) -> (r: Vec<
    (Option<Expression>, String),
>)
    ensures
        cases_view(r@) == cases_view(a@) + cases_view(b@),
{
    let mut a = a;
    let mut b = b;
    let ghost (av, bv) = (a@, b@);
    a.append(&mut b);
    assert(cases_view(a@) =~= cases_view(av) + cases_view(bv));
    a
}

/// The cases of a switch body, and the body as it is left.
fn switch_cases(st: Statement, t: &Type) -> (r: (Statement, Result<Vec<(Option<Expression>, String)>, SemanticError>))
    requires
        t@.spec_is_integer(),
        cases_safe(st@),
    ensures
        (r.0@, res_view(r.1)) == sc_switch(st@, t@),
    decreases st,
{
    let span = st.span;
    match st.kind {
        StatementKind::Compound(block) => {
            let (items, r) = cases_in_items(block.items, t);
            (Statement::new(StatementKind::Compound(Block { items }), span), r)
        },
        StatementKind::Case { expr, lab } => {
            let c = one_case(Some(clone_expr(&expr)), lab.clone());
            (Statement::new(StatementKind::Case { expr, lab }, span), Ok(c))
        },
        StatementKind::Default { lab } => {
            let c = one_case(None, lab.clone());
            (Statement::new(StatementKind::Default { lab }, span), Ok(c))
        },
        other => (Statement::new(other, span), Ok(no_cases())),
    }
}

/// The cases of the statement `st` of a block, and the statement as it is left.
fn cases_in_stmt(st: Statement, t: &Type) -> (r: (Statement, Result<Vec<(Option<Expression>, String)>, SemanticError>))
    requires
        t@.spec_is_integer(),
        cases_safe(st@),
    ensures
        (r.0@, res_view(r.1)) == sc_stmt(st@, t@),
    decreases st,
{
    let span = st.span;
    match st.kind {
        StatementKind::Case { expr, lab } => match eval_constant(&expr) {
            Some(value) => {
                let truncated = truncate_const(value, t);
                let e2 = Expression::new(ExpressionKind::Constant(truncated), Some(clone_type(t)), expr.span);
                let c = one_case(Some(clone_expr(&e2)), lab.clone());
                (Statement::new(StatementKind::Case { expr: e2, lab }, span), Ok(c))
            },
            None => {
                let err = SemanticError::NonConstantCase(expr.span);
                (Statement::new(StatementKind::Case { expr, lab }, span), Err(err))
            },
        },
        StatementKind::Default { lab } => {
            let c = one_case(None, lab.clone());
            (Statement::new(StatementKind::Default { lab }, span), Ok(c))
        },
        StatementKind::Compound(block) => {
            let (items, r) = cases_in_items(block.items, t);
            (Statement::new(StatementKind::Compound(Block { items }), span), r)
        },
        StatementKind::If(c, y, n) => {
            let (ny, ry) = switch_cases(*y, t);
            match ry {
                Err(e) => (Statement::new(StatementKind::If(c, Box::new(ny), n), span), Err(e)),
                Ok(cy) => match n {
                    Some(nn) => {
                        let (nn2, rn) = switch_cases(*nn, t);
                        let res = match rn {
                            Ok(cn) => Ok(append_cases(cy, cn)),
                            Err(e) => Err(e),
                        };
                        (Statement::new(StatementKind::If(c, Box::new(ny), Some(Box::new(nn2))), span), res)
                    },
                    None => (Statement::new(StatementKind::If(c, Box::new(ny), None), span), Ok(cy)),
                },
            }
        },
        StatementKind::Label(l, b) => {
            let (nb, r) = switch_cases(*b, t);
            (Statement::new(StatementKind::Label(l, Box::new(nb)), span), r)
        },
        StatementKind::For { init, cond, post, body, lab } => {
            let (nb, r) = switch_cases(*body, t);
            (Statement::new(StatementKind::For { init, cond, post, body: Box::new(nb), lab }, span), r)
        },
        StatementKind::While { cond, body, lab } => {
            let (nb, r) = switch_cases(*body, t);
            (Statement::new(StatementKind::While { cond, body: Box::new(nb), lab }, span), r)
        },
        StatementKind::DoWhile { body, cond, lab } => {
            let (nb, r) = switch_cases(*body, t);
            (Statement::new(StatementKind::DoWhile { body: Box::new(nb), cond, lab }, span), r)
        },
        other => (Statement::new(other, span), Ok(no_cases())),
    }
}

/// The cases of the items of a block, and the items as they are left.
#[verifier::rlimit(60)]
fn cases_in_items(items: Vec<BlockItem>, t: &Type) -> (r: (Vec<BlockItem>, Result<Vec<(Option<Expression>, String)>, SemanticError>))
    requires
        t@.spec_is_integer(),
        items_safe(items_view(items@)),
    ensures
        (items_view(r.0@), res_view(r.1)) == sc_items(items_view(items@), t@),
    decreases items,
{
    let ghost orig = items;
    let ghost iv = items_view(items@);
    proof {
        lemma_items_view(items@);
    }
    let mut rest = items;
    let mut done: Vec<BlockItem> = Vec::new();
    let mut cases = no_cases();
    assert(iv.subrange(0, iv.len() as int) =~= iv);
    assert(items_view(done@) =~= Seq::<BlockItemV>::empty());
    while rest.len() > 0
        invariant
            iv == items_view(orig@),
            orig == items,
            iv.len() == orig@.len(),
            forall|j: int| 0 <= j < orig@.len() ==> #[trigger] iv[j] == orig@[j]@,
            done@.len() + rest@.len() == orig@.len(),
            rest@ == orig@.subrange(done@.len() as int, orig@.len() as int),
            t@.spec_is_integer(),
            items_safe(iv.subrange(done@.len() as int, iv.len() as int)),
            ({
                let (ri, rr) = sc_items(iv.subrange(done@.len() as int, iv.len() as int), t@);
                sc_items(iv, t@) == (items_view(done@) + ri, join(cases_view(cases@), rr))
            }),
        decreases rest@.len(),
    {
        let k = done.len();
        proof {
            vstd::std_specs::vec::axiom_vec_index_decreases(orig, k as int);
        }
        let ghost sub = iv.subrange(k as int, iv.len() as int);
        assert(sub[0] == iv[k as int]);
        assert(sub.subrange(1, sub.len() as int) =~= iv.subrange(k + 1, iv.len() as int));
        assert(items_safe(sub));
        let item = rest.remove(0);
        assert(item == orig@[k as int]);
        let ghost old_done = done@;
        let ghost old_cases = cases@;
        let (ni, r) = match item {
            BlockItem::S(st) => {
                proof {
                    assert(decreases_to!(items => st));
                    assert(item_safe(iv[k as int]));
                    assert(iv[k as int] == BlockItemV::S(st@));
                }
                let (ns, r) = cases_in_stmt(st, t);
                (BlockItem::S(ns), r)
            },
            BlockItem::D(d) => (BlockItem::D(d), Ok(no_cases())),
        };
        assert(sc_item(iv[k as int], t@) == (ni@, res_view(r)));
        done.push(ni);
        assert(items_view(done@) =~= items_view(old_done) + seq![ni@]) by {
            lemma_items_view(done@);
            lemma_items_view(old_done);
        }
        match r {
            Ok(c) => {
                let ghost cv = cases_view(c@);
                cases = append_cases(cases, c);
                proof {
                    let (nr, r1) = sc_items(iv.subrange(k + 1, iv.len() as int), t@);
                    assert(sc_items(sub, t@) == (seq![ni@] + nr, join(cv, r1)));
                    assert(items_view(old_done) + (seq![ni@] + nr) =~= items_view(done@) + nr);
                    match r1 {
                        Ok(c2) => {
                            assert(cases_view(old_cases) + (cv + c2) =~= cases_view(cases@) + c2);
                        },
                        Err(_) => {},
                    }
                }
            },
            Err(e) => {
                let ghost before = done@;
                let ghost rv = rest@;
                done.append(&mut rest);
                proof {
                    lemma_items_view(done@);
                    lemma_items_view(before);
                    lemma_items_view(rv);
                    assert(items_view(done@) =~= items_view(before) + items_view(rv));
                    assert(items_view(rv) =~= iv.subrange(k + 1, iv.len() as int));
                }
                return (done, Err(e));
            },
        }
    }
    assert(iv.subrange(done@.len() as int, iv.len() as int) =~= Seq::<BlockItemV>::empty());
    assert(items_view(done@) + Seq::<BlockItemV>::empty() =~= items_view(done@));
    assert(cases_view(cases@) + Seq::<(Option<ExprV>, Seq<char>)>::empty() =~= cases_view(cases@));
    (done, Ok(cases))
}


/// Finds the cases of a switch body, evaluating those in its blocks; the
/// body is left with the case values as constants.
fn collect_switch_cases(st: &mut Statement, scrutinee_type: &Type) -> (r: Result<
    Vec<(Option<Expression>, String)>,
    SemanticError,
>)
    requires
        scrutinee_type@.spec_is_integer(),
        cases_safe(old(st)@),
    ensures
        (final(st)@, res_view(r)) == sc_switch(old(st)@, scrutinee_type@),
{
    let mut taken = Statement::new(StatementKind::Null, st.span);
    std::mem::swap(st, &mut taken);
    let (back, r) = switch_cases(taken, scrutinee_type);
    *st = back;
    r
}

/// Finds the cases among the items of a block.
fn collect_cases_in_block(items: &mut Vec<BlockItem>, scrutinee_type: &Type) -> (r: Result<
    Vec<(Option<Expression>, String)>,
    SemanticError,
>)
    requires
        scrutinee_type@.spec_is_integer(),
        items_safe(items_view(old(items)@)),
    ensures
        (items_view(final(items)@), res_view(r)) == sc_items(items_view(old(items)@), scrutinee_type@),
{
    let mut taken: Vec<BlockItem> = Vec::new();
    std::mem::swap(items, &mut taken);
    let (back, r) = cases_in_items(taken, scrutinee_type);
    *items = back;
    r
}

/// Where a declaration directly follows a `case` or `default` label in the
/// items: the label's statement span, the first time it happens.
pub open spec fn dec_in_case(items: Seq<BlockItemV>) -> Option<Span>
    decreases items.len(),
{
    if items.len() < 2 {
        None
    } else if items[0] matches BlockItemV::S(st) && (st.kind is Case || st.kind is Default) && items[1] is D {
        Some(items[0]->S_0.span)
    } else {
        dec_in_case(items.drop_first())
    }
}

/// Refuses a block in which a declaration directly follows a case label.
#[verifier::rlimit(30)]
fn check_block_for_decs(block: &Block) -> (r: Result<(), SemanticError>)
    ensures
        match dec_in_case(items_view(block.items@)) {
            Some(span) => r matches Err(SemanticError::DecInCase(s)) && s == span,
            None => r is Ok,
        },
{
    let items = &block.items;
    let ghost iv = items_view(items@);
    proof {
        lemma_items_view(items@);
    }
    assert(iv.subrange(0, iv.len() as int) =~= iv);
    let mut i: usize = 0;
    while i < items.len() && items.len() - i > 1
        invariant
            iv == items_view(items@),
            items == &block.items,
            iv.len() == items@.len(),
            forall|j: int| 0 <= j < items@.len() ==> #[trigger] iv[j] == items@[j]@,
            i <= items@.len(),
            dec_in_case(iv) == dec_in_case(iv.subrange(i as int, iv.len() as int)),
        decreases items@.len() - i,
    {
        let ghost sub = iv.subrange(i as int, iv.len() as int);
        assert(sub[0] == iv[i as int] && sub[1] == iv[i + 1]);
        assert(sub.drop_first() =~= iv.subrange(i + 1, iv.len() as int));
        match (&items[i], &items[i + 1]) {
            (BlockItem::S(stmt), BlockItem::D(_)) => {
                if matches!(stmt.kind, StatementKind::Case { .. } | StatementKind::Default { .. }) {
                    assert(iv[i as int] == BlockItemV::S(stmt@));
                    assert(stmt@.kind is Case || stmt@.kind is Default);
                    assert(iv[i + 1] is D);
                    assert(dec_in_case(sub) == Some(stmt@.span));
                    assert(stmt@.span == stmt.span);
                    assert(dec_in_case(iv) == dec_in_case(sub));
                    assert(iv == items_view(block.items@));
                    let e = SemanticError::DecInCase(stmt.span);
                    assert(e matches SemanticError::DecInCase(x) && x == stmt.span);
                    return Err(e);
                }
            },
            _ => {},
        }
        i = i + 1;
    }
    assert(iv.subrange(i as int, iv.len() as int).len() < 2);
    Ok(())
}


/// The number of statements and block items in a statement.
pub open spec fn ssz(s: StmtV) -> nat
    decreases s,
{
    1 + match s.kind {
        StmtKindV::If(_, y, n) => ssz(*y) + match n {
            Some(nn) => ssz(*nn),
            None => 0,
        },
        StmtKindV::Compound(items) => isz(items),
        StmtKindV::Label(_, b) => ssz(*b),
        StmtKindV::For { body, .. } | StmtKindV::While { body, .. } | StmtKindV::DoWhile { body, .. }
        | StmtKindV::Switch { body, .. } => ssz(*body),
        _ => 0,
    }
}

pub open spec fn isz(items: Seq<BlockItemV>) -> nat
    decreases items,
{
    if items.len() == 0 {
        0
    } else {
        itsz(items[0]) + isz(items.subrange(1, items.len() as int))
    }
}

pub open spec fn itsz(item: BlockItemV) -> nat
    decreases item,
{
    match item {
        BlockItemV::S(s) => 1 + ssz(s),
        _ => 1,
    }
}

/// The statements the collector handles: case values evaluate within
/// 128-bit arithmetic and every switch's scrutinee has an integer type.
pub open spec fn sw_ok(s: StmtV) -> bool
    decreases s,
{
    match s.kind {
        StmtKindV::Case { expr, .. } => eval_safe(expr),
        StmtKindV::Compound(items) => items_ok(items),
        StmtKindV::If(_, y, n) => sw_ok(*y) && match n {
            Some(nn) => sw_ok(*nn),
            None => true,
        },
        StmtKindV::Label(_, b) => sw_ok(*b),
        StmtKindV::For { body, .. } | StmtKindV::While { body, .. } | StmtKindV::DoWhile { body, .. } => sw_ok(*body),
        StmtKindV::Switch { scrutinee, body, .. } => scrutinee.ty is Some && scrutinee.ty->0.spec_is_integer() && sw_ok(
            *body,
        ),
        _ => true,
    }
}

pub open spec fn items_ok(items: Seq<BlockItemV>) -> bool
    decreases items,
{
    items.len() == 0 || (item_ok(items[0]) && items_ok(items.subrange(1, items.len() as int)))
}

pub open spec fn item_ok(item: BlockItemV) -> bool
    decreases item,
{
    match item {
        BlockItemV::S(s) => sw_ok(s),
        _ => true,
    }
}

proof fn lemma_ok_safe(s: StmtV)
    requires
        sw_ok(s),
    ensures
        cases_safe(s),
    decreases s,
{
    match s.kind {
        StmtKindV::Compound(items) => lemma_items_ok_safe(items),
        StmtKindV::If(_, y, n) => {
            lemma_ok_safe(*y);
            match n {
                Some(nn) => lemma_ok_safe(*nn),
                None => {},
            }
        },
        StmtKindV::Label(_, b) => lemma_ok_safe(*b),
        StmtKindV::For { body, .. } | StmtKindV::While { body, .. } | StmtKindV::DoWhile { body, .. }
        | StmtKindV::Switch { body, .. } => lemma_ok_safe(*body),
        _ => {},
    }
}

proof fn lemma_items_ok_safe(items: Seq<BlockItemV>)
    requires
        items_ok(items),
    ensures
        items_safe(items),
    decreases items,
{
    if items.len() > 0 {
        assert(item_ok(items[0]));
        match items[0] {
            BlockItemV::S(st) => lemma_ok_safe(st),
            _ => {},
        }
        lemma_items_ok_safe(items.subrange(1, items.len() as int));
        assert(item_safe(items[0]));
    }
}

pub proof fn lemma_isz_cons(x: BlockItemV, r: Seq<BlockItemV>)
    ensures
        isz(seq![x] + r) == itsz(x) + isz(r),
        items_ok(seq![x] + r) == (item_ok(x) && items_ok(r)),
{
    let c = seq![x] + r;
    assert(c[0] == x);
    assert(c.subrange(1, c.len() as int) =~= r);
}

/// Collecting cases keeps the shape of a statement and what the collector handles.
pub proof fn lemma_switch_keeps(s: StmtV, t: TypeV)
    ensures
        ssz(sc_switch(s, t).0) == ssz(s),
        sw_ok(s) ==> sw_ok(sc_switch(s, t).0),
    decreases s,
{
    match s.kind {
        StmtKindV::Compound(items) => lemma_items_keep(items, t),
        _ => {},
    }
}

pub proof fn lemma_items_keep(items: Seq<BlockItemV>, t: TypeV)
    ensures
        isz(sc_items(items, t).0) == isz(items),
        items_ok(items) ==> items_ok(sc_items(items, t).0),
    decreases items,
{
    if items.len() > 0 {
        let rest = items.subrange(1, items.len() as int);
        lemma_item_keeps(items[0], t);
        let (i0, r0) = sc_item(items[0], t);
        lemma_isz_cons(i0, rest);
        lemma_isz_cons(items[0], rest);
        assert(seq![items[0]] + rest =~= items);
        if r0 is Ok {
            lemma_items_keep(rest, t);
            lemma_isz_cons(i0, sc_items(rest, t).0);
        }
    }
}

pub proof fn lemma_item_keeps(item: BlockItemV, t: TypeV)
    ensures
        itsz(sc_item(item, t).0) == itsz(item),
        item_ok(item) ==> item_ok(sc_item(item, t).0),
    decreases item,
{
    match item {
        BlockItemV::S(st) => lemma_stmt_keeps(st, t),
        _ => {},
    }
}

pub proof fn lemma_stmt_keeps(s: StmtV, t: TypeV)
    ensures
        ssz(sc_stmt(s, t).0) == ssz(s),
        sw_ok(s) ==> sw_ok(sc_stmt(s, t).0),
    decreases s,
{
    match s.kind {
        StmtKindV::Compound(items) => lemma_items_keep(items, t),
        StmtKindV::If(_, y, n) => {
            lemma_switch_keeps(*y, t);
            match n {
                Some(nn) => lemma_switch_keeps(*nn, t),
                None => {},
            }
        },
        StmtKindV::Label(_, b) => lemma_switch_keeps(*b, t),
        StmtKindV::For { body, .. } | StmtKindV::While { body, .. } | StmtKindV::DoWhile { body, .. } => {
            lemma_switch_keeps(*body, t)
        },
        _ => {},
    }
}


/// The value a case is told apart by: that of an integer constant.
pub open spec fn case_key(e: Option<ExprV>) -> Option<int> {
    match e {
        Some(x) => match x.kind {
            ExprKindV::Constant(c) => match c {
                ConstV::Int(i) => Some(i as int),
                ConstV::Long(l) => Some(l as int),
                ConstV::UInt(u) => Some(u as int),
                ConstV::ULong(u) => Some(u as int),
                ConstV::Double(_) => None,
            },
            _ => None,
        },
        None => None,
    }
}

/// Two cases have the same value.
pub open spec fn has_dup(cs: Seq<(Option<ExprV>, Seq<char>)>) -> bool {
    exists|i: int, j: int|
        #![trigger cs[i], cs[j]]
        0 <= i < j < cs.len() && case_key(cs[i].0) is Some && case_key(cs[i].0) == case_key(cs[j].0)
}

/// The number of `default` labels among the cases.
pub open spec fn default_count(cs: Seq<(Option<ExprV>, Seq<char>)>) -> nat
    decreases cs.len(),
{
    if cs.len() == 0 {
        0
    } else {
        default_count(cs.drop_last()) + if cs.last().0 is None { 1nat } else { 0nat }
    }
}

/// What the switch-collecting pass does to a statement: each switch gets
/// the list of its cases, after checks for duplicate values, more than one
/// default and declarations right after a case label; the first error
/// stops the pass.
pub open spec fn sv_stmt(s: StmtV) -> (StmtV, Result<(), SemanticErrorV>)
    decreases ssz(s), 2int,
{
    match s.kind {
        StmtKindV::Switch { scrutinee, body, lab, cases } => {
            let t = scrutinee.ty->0;
            let (nb, r) = sc_switch(*body, t);
            match r {
                Err(e) => (StmtV { kind: StmtKindV::Switch { scrutinee, body: Box::new(nb), lab, cases }, ..s }, Err(e)),
                Ok(cs) => {
                    let s1 = StmtV { kind: StmtKindV::Switch { scrutinee, body: Box::new(nb), lab, cases: cs }, ..s };
                    if has_dup(cs) {
                        (s1, Err(SemanticErrorV::DuplicateCase(s.span)))
                    } else if default_count(cs) > 1 {
                        (s1, Err(SemanticErrorV::DuplicateDefault(s.span)))
                    } else if nb.kind matches StmtKindV::Compound(items) && dec_in_case(items) is Some {
                        (s1, Err(SemanticErrorV::DecInCase(dec_in_case(nb.kind->Compound_0)->0)))
                    } else {
                        proof {
                            lemma_switch_keeps(*body, t);
                        }
                        let (nb2, r2) = sv_stmt(nb);
                        (StmtV { kind: StmtKindV::Switch { scrutinee, body: Box::new(nb2), lab, cases: cs }, ..s }, r2)
                    }
                },
            }
        },
        StmtKindV::If(c, y, n) => {
            let (ny, ry) = sv_stmt(*y);
            match ry {
                Err(e) => (StmtV { kind: StmtKindV::If(c, Box::new(ny), n), ..s }, Err(e)),
                Ok(_) => match n {
                    Some(nn) => {
                        let (nn2, rn) = sv_stmt(*nn);
                        (StmtV { kind: StmtKindV::If(c, Box::new(ny), Some(Box::new(nn2))), ..s }, rn)
                    },
                    None => (StmtV { kind: StmtKindV::If(c, Box::new(ny), None), ..s }, Ok(())),
                },
            }
        },
        StmtKindV::Compound(items) => {
            let (ni, r) = sv_items(items);
            (StmtV { kind: StmtKindV::Compound(ni), ..s }, r)
        },
        StmtKindV::Label(l, b) => {
            let (nb, r) = sv_stmt(*b);
            (StmtV { kind: StmtKindV::Label(l, Box::new(nb)), ..s }, r)
        },
        StmtKindV::For { init, cond, post, body, lab } => {
            let (nb, r) = sv_stmt(*body);
            (StmtV { kind: StmtKindV::For { init, cond, post, body: Box::new(nb), lab }, ..s }, r)
        },
        StmtKindV::While { cond, body, lab } => {
            let (nb, r) = sv_stmt(*body);
            (StmtV { kind: StmtKindV::While { cond, body: Box::new(nb), lab }, ..s }, r)
        },
        StmtKindV::DoWhile { body, cond, lab } => {
            let (nb, r) = sv_stmt(*body);
            (StmtV { kind: StmtKindV::DoWhile { body: Box::new(nb), cond, lab }, ..s }, r)
        },
        _ => (s, Ok(())),
    }
}

pub open spec fn sv_items(items: Seq<BlockItemV>) -> (Seq<BlockItemV>, Result<(), SemanticErrorV>)
    decreases isz(items), 1int,
{
    if items.len() == 0 {
        (items, Ok(()))
    } else {
        let (i0, r0) = sv_item(items[0]);
        let rest = items.subrange(1, items.len() as int);
        match r0 {
            Err(e) => (seq![i0] + rest, Err(e)),
            Ok(_) => {
                proof {
                    assert(isz(items) == itsz(items[0]) + isz(rest));
                }
                let (nr, r1) = sv_items(rest);
                (seq![i0] + nr, r1)
            },
        }
    }
}

pub open spec fn sv_item(item: BlockItemV) -> (BlockItemV, Result<(), SemanticErrorV>)
    decreases itsz(item), 0int,
{
    match item {
        BlockItemV::S(s) => {
            let (ns, r) = sv_stmt(s);
            (BlockItemV::S(ns), r)
        },
        _ => (item, Ok(())),
    }
}


pub open spec fn unit_view(r: Result<(), SemanticError>) -> Result<(), SemanticErrorV> {
    match r {
        Ok(_) => Ok(()),
        Err(e) => Err(e@),
    }
}

/// Whether `k` is among `seen`.
fn find_key(seen: &Vec<i128>, k: i128) -> (r: bool)
    ensures
        r == seen@.contains(k),
{
    let mut i: usize = 0;
    while i < seen.len()
        invariant
            i <= seen@.len(),
            forall|j: int| 0 <= j < i ==> seen@[j] != k,
        decreases seen@.len() - i,
    {
        if seen[i] == k {
            assert(seen@[i as int] == k);
            return true;
        }
        i = i + 1;
    }
    false
}

/// The value a case is told apart by.
fn key_of(e: &Option<Expression>) -> (r: Option<i128>)
    ensures
        match case_key(opt_expr_view(*e)) {
            Some(k) => r == Some(k as i128),
            None => r is None,
        },
{
    match e {
        Some(x) => match &x.kind {
            ExpressionKind::Constant(c) => match c {
                Const::Int(i) => Some(*i as i128),
                Const::Long(i) => Some(*i as i128),
                Const::UInt(i) => Some(*i as i128),
                Const::ULong(i) => Some(*i as i128),
                Const::Double(_) => None,
            },
            _ => None,
        },
        None => None,
    }
}

/// Whether two of the cases have the same value.
fn duplicate_case(cases: &Vec<(Option<Expression>, String)>) -> (r: bool)
    ensures
        r == has_dup(cases_view(cases@)),
{
    let ghost cv = cases_view(cases@);
    let mut seen: Vec<i128> = Vec::new();
    let mut i: usize = 0;
    while i < cases.len()
        invariant
            i <= cases@.len(),
            cv == cases_view(cases@),
            cv.len() == cases@.len(),
            forall|j: int| #![trigger cv[j]] 0 <= j < i && case_key(cv[j].0) is Some ==> seen@.contains(case_key(cv[j].0)->0 as i128),
            forall|m: int|
                #![trigger seen@[m]]
                0 <= m < seen@.len() ==> exists|j: int| #![trigger cv[j]] 0 <= j < i && case_key(cv[j].0) == Some(seen@[m] as int),
            !has_dup(cv.subrange(0, i as int)),
        decreases cases@.len() - i,
    {
        assert(cv[i as int] == (opt_expr_view(cases@[i as int].0), cases@[i as int].1@));
        match key_of(&cases[i].0) {
            Some(k) => {
                if find_key(&seen, k) {
                    proof {
                        let m = choose|m: int| 0 <= m < seen@.len() && seen@[m] == k;
                        let j = choose|j: int| 0 <= j < i && case_key(cv[j].0) == Some(seen@[m] as int);
                        assert(case_key(cv[j].0) == case_key(cv[i as int].0));
                    }
                    return true;
                }
                let ghost old_seen = seen@;
                seen.push(k);
                assert forall|m: int|
                    #![trigger seen@[m]]
                    0 <= m < seen@.len() implies exists|j: int| #![trigger cv[j]] 0 <= j < i + 1 && case_key(cv[j].0) == Some(seen@[m] as int) by {
                    if m < old_seen.len() {
                        assert(seen@[m] == old_seen[m]);
                    } else {
                        assert(case_key(cv[i as int].0) == Some(seen@[m] as int));
                    }
                }
                assert forall|j: int| #![trigger cv[j]] 0 <= j < i + 1 && case_key(cv[j].0) is Some implies seen@.contains(case_key(cv[j].0)->0 as i128) by {
                    if j < i {
                        let w = choose|w: int| 0 <= w < old_seen.len() && old_seen[w] == case_key(cv[j].0)->0 as i128;
                        assert(seen@[w] == old_seen[w]);
                    } else {
                        assert(seen@[old_seen.len() as int] == k);
                    }
                }
                assert(!has_dup(cv.subrange(0, i + 1))) by {
                    if has_dup(cv.subrange(0, i + 1)) {
                        let sub = cv.subrange(0, i + 1);
                        let (a, b) = choose|a: int, b: int|
                            #![trigger sub[a], sub[b]]
                            0 <= a < b < sub.len() && case_key(sub[a].0) is Some && case_key(sub[a].0) == case_key(sub[b].0);
                        if b < i {
                            assert(has_dup(cv.subrange(0, i as int))) by {
                                assert(cv.subrange(0, i as int)[a] == cv[a] && cv.subrange(0, i as int)[b] == cv[b]);
                            }
                        } else {
                            assert(seen@.contains(case_key(cv[a].0)->0 as i128));
                            let w = choose|w: int| 0 <= w < old_seen.len() && old_seen[w] == case_key(cv[a].0)->0 as i128;
                            assert(old_seen.contains(k));
                        }
                    }
                }
            },
            None => {
                assert(!has_dup(cv.subrange(0, i + 1))) by {
                    if has_dup(cv.subrange(0, i + 1)) {
                        let sub = cv.subrange(0, i + 1);
                        let (a, b) = choose|a: int, b: int|
                            #![trigger sub[a], sub[b]]
                            0 <= a < b < sub.len() && case_key(sub[a].0) is Some && case_key(sub[a].0) == case_key(sub[b].0);
                        assert(b < i);
                        assert(has_dup(cv.subrange(0, i as int))) by {
                            assert(cv.subrange(0, i as int)[a] == cv[a] && cv.subrange(0, i as int)[b] == cv[b]);
                        }
                    }
                }
            },
        }
        i = i + 1;
    }
    assert(cv.subrange(0, i as int) =~= cv);
    false
}

/// The number of `default` labels among the cases.
fn count_defaults(cases: &Vec<(Option<Expression>, String)>) -> (r: usize)
    ensures
        r == default_count(cases_view(cases@)),
{
    let ghost cv = cases_view(cases@);
    let mut n: usize = 0;
    let mut i: usize = 0;
    assert(cv.subrange(0, 0) =~= Seq::<(Option<ExprV>, Seq<char>)>::empty());
    while i < cases.len()
        invariant
            i <= cases@.len(),
            cv == cases_view(cases@),
            cv.len() == cases@.len(),
            n == default_count(cv.subrange(0, i as int)),
            n <= i,
        decreases cases@.len() - i,
    {
        assert(cv[i as int] == (opt_expr_view(cases@[i as int].0), cases@[i as int].1@));
        assert(cv.subrange(0, i + 1).drop_last() =~= cv.subrange(0, i as int));
        if cases[i].0.is_none() {
            n = n + 1;
        }
        i = i + 1;
    }
    assert(cv.subrange(0, i as int) =~= cv);
    n
}


/// The pass that lists the cases of each switch.
pub struct SwitchCollector;

impl SwitchCollector {
    /// Collects the cases of every switch in `statement`, checking them.
    pub fn visit_statement(&mut self, statement: &mut Statement) -> (r: Result<(), SemanticError>)
        requires
            sw_ok(old(statement)@),
        ensures
            (final(statement)@, unit_view(r)) == sv_stmt(old(statement)@),
    {
        let mut taken = Statement::new(StatementKind::Null, statement.span);
        std::mem::swap(statement, &mut taken);
        let (back, r) = self.visit_owned(taken);
        *statement = back;
        r
    }

    #[verifier::rlimit(40)]
    fn visit_owned(&mut self, st: Statement) -> (r: (Statement, Result<(), SemanticError>))
        requires
            sw_ok(st@),
        ensures
            (r.0@, unit_view(r.1)) == sv_stmt(st@),
        decreases ssz(st@), 2int,
    {
        let span = st.span;
        let ghost sv = st@;
        match st.kind {
            StatementKind::Switch { .. } => self.visit_switch(Statement::new(st.kind, span)),
            StatementKind::If(c, y, n) => {
                let (ny, ry) = self.visit_owned(*y);
                match ry {
                    Err(e) => (Statement::new(StatementKind::If(c, Box::new(ny), n), span), Err(e)),
                    Ok(()) => match n {
                        Some(nn) => {
                            let (nn2, rn) = self.visit_owned(*nn);
                            (Statement::new(StatementKind::If(c, Box::new(ny), Some(Box::new(nn2))), span), rn)
                        },
                        None => (Statement::new(StatementKind::If(c, Box::new(ny), None), span), Ok(())),
                    },
                }
            },
            StatementKind::Compound(block) => {
                let (items, r) = self.visit_items(block.items);
                (Statement::new(StatementKind::Compound(Block { items }), span), r)
            },
            StatementKind::Label(l, b) => {
                let (nb, r) = self.visit_owned(*b);
                (Statement::new(StatementKind::Label(l, Box::new(nb)), span), r)
            },
            StatementKind::For { init, cond, post, body, lab } => {
                let (nb, r) = self.visit_owned(*body);
                (Statement::new(StatementKind::For { init, cond, post, body: Box::new(nb), lab }, span), r)
            },
            StatementKind::While { cond, body, lab } => {
                let (nb, r) = self.visit_owned(*body);
                (Statement::new(StatementKind::While { cond, body: Box::new(nb), lab }, span), r)
            },
            StatementKind::DoWhile { body, cond, lab } => {
                let (nb, r) = self.visit_owned(*body);
                (Statement::new(StatementKind::DoWhile { body: Box::new(nb), cond, lab }, span), r)
            },
            other => (Statement::new(other, span), Ok(())),
        }
    }

    #[verifier::rlimit(40)]
    fn visit_switch(&mut self, st: Statement) -> (r: (Statement, Result<(), SemanticError>))
        requires
            st.kind is Switch,
            sw_ok(st@),
        ensures
            (r.0@, unit_view(r.1)) == sv_stmt(st@),
        decreases ssz(st@), 1int,
    {
        let span = st.span;
        match st.kind {
            StatementKind::Switch { scrutinee, body, lab, cases } => {
                let scrutinee_type = match &scrutinee.expression_type {
                    Some(t) => clone_type(t),
                    None => vstd::pervasive::unreached(),
                };
                let ghost bv = (*body)@;
                proof {
                    lemma_ok_safe(bv);
                }
                let (nb, r) = switch_cases(*body, &scrutinee_type);
                match r {
                    Err(e) => (Statement::new(StatementKind::Switch { scrutinee, body: Box::new(nb), lab, cases }, span), Err(e)),
                    Ok(cs) => {
                        if duplicate_case(&cs) {
                            return (
                                Statement::new(StatementKind::Switch { scrutinee, body: Box::new(nb), lab, cases: cs }, span),
                                Err(SemanticError::DuplicateCase(span)),
                            );
                        }
                        if count_defaults(&cs) > 1 {
                            return (
                                Statement::new(StatementKind::Switch { scrutinee, body: Box::new(nb), lab, cases: cs }, span),
                                Err(SemanticError::DuplicateDefault(span)),
                            );
                        }
                        let checked = match &nb.kind {
                            StatementKind::Compound(block) => check_block_for_decs(block),
                            _ => Ok(()),
                        };
                        match checked {
                            Err(e) => {
                                return (
                                    Statement::new(StatementKind::Switch { scrutinee, body: Box::new(nb), lab, cases: cs }, span),
                                    Err(e),
                                );
                            },
                            Ok(()) => {},
                        }
                        proof {
                            lemma_switch_keeps(bv, scrutinee_type@);
                        }
                        let (nb2, r2) = self.visit_owned(nb);
                        (Statement::new(StatementKind::Switch { scrutinee, body: Box::new(nb2), lab, cases: cs }, span), r2)
                    },
                }
            
            },
            _ => vstd::pervasive::unreached(),
        }
    }

    fn visit_items(&mut self, items: Vec<BlockItem>) -> (r: (Vec<BlockItem>, Result<(), SemanticError>))
        requires
            items_ok(items_view(items@)),
        ensures
            (items_view(r.0@), unit_view(r.1)) == sv_items(items_view(items@)),
        decreases isz(items_view(items@)), 1int,
    {
        let ghost iv = items_view(items@);
        proof {
            lemma_items_view(items@);
        }
        if items.len() == 0 {
            return (items, Ok(()));
        }
        let mut rest = items;
        let first = rest.remove(0);
        let ghost rv = items_view(rest@);
        proof {
            lemma_items_view(rest@);
            assert(rv =~= iv.subrange(1, iv.len() as int));
            assert(iv[0] == first@);
            assert(isz(iv) == itsz(iv[0]) + isz(rv));
        }
        let ghost fv = first@;
        assert(item_ok(iv[0]));
        let (f2, r0) = match first {
            BlockItem::S(s) => {
                assert(fv == BlockItemV::S(s@));
                let (ns, r) = self.visit_owned(s);
                (BlockItem::S(ns), r)
            },
            other => (other, Ok(())),
        };
        assert(sv_item(iv[0]) == (f2@, unit_view(r0)));
        match r0 {
            Err(e) => {
                let mut out: Vec<BlockItem> = Vec::new();
                out.push(f2);
                out.append(&mut rest);
                proof {
                    lemma_items_view(out@);
                    assert(items_view(out@) =~= seq![f2@] + rv);
                }
                (out, Err(e))
            },
            Ok(()) => {
                let (nr, r1) = self.visit_items(rest);
                let ghost nrs = nr@;
                let ghost nrv = items_view(nr@);
                let mut out: Vec<BlockItem> = Vec::new();
                out.push(f2);
                let mut nr = nr;
                out.append(&mut nr);
                proof {
                    lemma_items_view(out@);
                    lemma_items_view(nrs);
                    assert(items_view(out@) =~= seq![f2@] + nrv);
                }
                (out, r1)
            },
        }
    }
}



/// A switch the collector accepts lists no case value twice and at most one
/// `default`.
pub proof fn lemma_accepted_switch_cases(s: StmtV)
    requires
        s.kind is Switch,
        sv_stmt(s).1 is Ok,
    ensures
        sv_stmt(s).0.kind matches StmtKindV::Switch { cases, .. } && !has_dup(cases) && default_count(cases) <= 1,
{
}

/// The pass over a program: the bodies of its functions, in order.
pub open spec fn sv_decls(ds: Seq<DeclV>) -> (Seq<DeclV>, Result<(), SemanticErrorV>)
    decreases ds.len(),
{
    if ds.len() == 0 {
        (ds, Ok(()))
    } else {
        let rest = ds.drop_first();
        let (d0, r0) = match ds[0] {
            DeclV::FuncDecl(f) => match f.body {
                Some(b) => {
                    let (nb, r) = sv_items(b);
                    (DeclV::FuncDecl(FuncDeclV { body: Some(nb), ..f }), r)
                },
                None => (ds[0], Ok(())),
            },
            _ => (ds[0], Ok(())),
        };
        match r0 {
            Err(e) => (seq![d0] + rest, Err(e)),
            Ok(_) => {
                let (nr, r1) = sv_decls(rest);
                (seq![d0] + nr, r1)
            },
        }
    }
}

/// The function bodies of a program hold only what the collector handles.
pub open spec fn decls_ok(ds: Seq<DeclV>) -> bool {
    forall|i: int| 0 <= i < ds.len() ==> body_ok(#[trigger] ds[i])
}

pub open spec fn body_ok(d: DeclV) -> bool {
    match d {
        DeclV::FuncDecl(f) => f.body is Some ==> items_ok(f.body->0),
        _ => true,
    }
}


/// Whether evaluating `e` stays within 128-bit arithmetic (see [`eval_safe`]).
fn expr_safe(e: &Expression) -> (r: bool)
    ensures
        r == eval_safe(e@),
    decreases e,
{
    match &e.kind {
        ExpressionKind::Unary(op, x) => {
            if !expr_safe(x) {
                return false;
            }
            match op {
                UnaryOp::Negate => match eval_constant(x) {
                    Some(v) => v != i128::MIN,
                    None => true,
                },
                _ => true,
            }
        },
        ExpressionKind::Binary(op, l, r) => {
            if !expr_safe(l) {
                return false;
            }
            let a = match eval_constant(l) {
                Some(a) => a,
                None => return true,
            };
            if !expr_safe(r) {
                return false;
            }
            let b = match eval_constant(r) {
                Some(b) => b,
                None => return true,
            };
            match op {
                BinaryOp::Add => a.checked_add(b).is_some(),
                BinaryOp::Subtract => a.checked_sub(b).is_some(),
                BinaryOp::Multiply => a.checked_mul(b).is_some(),
                BinaryOp::Divide => !(a == i128::MIN && b == -1),
                BinaryOp::Remainder => !(a == i128::MIN && b == -1),
                BinaryOp::LeftShift => 0 <= b && b < 128,
                BinaryOp::RightShift => 0 <= b && b < 128,
                _ => true,
            }
        },
        _ => true,
    }
}

/// `items_ok` holds when each item is one the collector handles.
proof fn lemma_items_ok_all(items: Seq<BlockItemV>)
    ensures
        items_ok(items) <==> forall|i: int| 0 <= i < items.len() ==> item_ok(#[trigger] items[i]),
    decreases items.len(),
{
    if items.len() > 0 {
        let rest = items.subrange(1, items.len() as int);
        lemma_items_ok_all(rest);
        if forall|i: int| 0 <= i < items.len() ==> item_ok(#[trigger] items[i]) {
            assert forall|i: int| 0 <= i < rest.len() implies item_ok(#[trigger] rest[i]) by {
                assert(rest[i] == items[i + 1]);
            }
        }
        if items_ok(items) {
            assert forall|i: int| 0 <= i < items.len() implies item_ok(#[trigger] items[i]) by {
                if i > 0 {
                    assert(items[i] == rest[i - 1]);
                }
            }
        }
    }
}

/// Whether the collector handles `s` (see [`sw_ok`]).
fn stmt_sw_ready(s: &Statement) -> (r: bool)
    ensures
        r == sw_ok(s@),
    decreases s,
{
    match &s.kind {
        StatementKind::Case { expr, .. } => expr_safe(expr),
        StatementKind::Compound(block) => {
            assert(decreases_to!(*s => block.items));
            items_sw_ready(&block.items)
        },
        StatementKind::If(_, y, n) => stmt_sw_ready(y) && match n {
            Some(nn) => stmt_sw_ready(nn),
            None => true,
        },
        StatementKind::Label(_, b) => stmt_sw_ready(b),
        StatementKind::For { body, .. } => stmt_sw_ready(body),
        StatementKind::While { body, .. } => stmt_sw_ready(body),
        StatementKind::DoWhile { body, .. } => stmt_sw_ready(body),
        StatementKind::Switch { scrutinee, body, .. } => {
            let typed = match &scrutinee.expression_type {
                Some(t) => t.is_integer(),
                None => false,
            };
            typed && stmt_sw_ready(body)
        },
        _ => true,
    }
}

fn items_sw_ready(items: &Vec<BlockItem>) -> (r: bool)
    ensures
        r == items_ok(items_view(items@)),
    decreases items,
{
    let ghost iv = items_view(items@);
    proof {
        lemma_items_view(items@);
        lemma_items_ok_all(iv);
    }
    let mut i: usize = 0;
    while i < items.len()
        invariant
            i <= items@.len(),
            iv == items_view(items@),
            iv.len() == items@.len(),
            forall|j: int| 0 <= j < items@.len() ==> #[trigger] iv[j] == crate::parser::ast::item_view(items@[j]),
            items_ok(iv) == (forall|j: int| 0 <= j < iv.len() ==> item_ok(#[trigger] iv[j])),
            forall|j: int| 0 <= j < i ==> item_ok(#[trigger] iv[j]),
        decreases items@.len() - i,
    {
        proof {
            vstd::std_specs::vec::axiom_vec_index_decreases(*items, i as int);
        }
        let ok = match &items[i] {
            BlockItem::S(st) => {
                assert(decreases_to!(*items => st));
                stmt_sw_ready(st)
            },
            _ => true,
        };
        if !ok {
            assert(!item_ok(iv[i as int]));
            return false;
        }
        i = i + 1;
    }
    true
}

/// Whether [`switch_collection_pass`] handles `program` (see [`decls_ok`]).
pub fn switch_ready(program: &Program) -> (r: bool)
    ensures
        r == decls_ok(decls_view(program.declarations@)),
{
    let ghost dv = decls_view(program.declarations@);
    let ds = &program.declarations;
    let mut k: usize = 0;
    while k < ds.len()
        invariant
            k <= ds@.len(),
            ds == &program.declarations,
            dv == decls_view(ds@),
            dv.len() == ds@.len(),
            forall|j: int| 0 <= j < k ==> body_ok(#[trigger] dv[j]),
        decreases ds@.len() - k,
    {
        assert(dv[k as int] == ds@[k as int]@);
        let ok = match &ds[k] {
            Decl::FuncDecl(f) => match &f.body {
                Some(b) => items_sw_ready(&b.items),
                None => true,
            },
            _ => true,
        };
        if !ok {
            assert(!body_ok(dv[k as int]));
            return false;
        }
        k = k + 1;
    }
    true
}

/// Lists and checks the cases of every switch in the program.
pub fn switch_collection_pass(program: &mut Program) -> (r: Result<(), SemanticError>)
    requires
        decls_ok(decls_view(old(program).declarations@)),
    ensures
        (decls_view(final(program).declarations@), unit_view(r)) == sv_decls(decls_view(old(program).declarations@)),
{
    let mut collector = SwitchCollector;
    let mut rest: Vec<Decl> = Vec::new();
    std::mem::swap(&mut program.declarations, &mut rest);
    let ghost orig = rest@;
    let ghost dv = decls_view(orig);
    let mut done: Vec<Decl> = Vec::new();
    assert(dv.subrange(0, dv.len() as int) =~= dv);
    assert(decls_view(done@) =~= Seq::<DeclV>::empty());
    while rest.len() > 0
        invariant
            dv == decls_view(orig),
            orig == old(program).declarations@,
            dv.len() == orig.len(),
            decls_ok(dv),
            done@.len() + rest@.len() == orig.len(),
            rest@ == orig.subrange(done@.len() as int, orig.len() as int),
            ({
                let (nr, rr) = sv_decls(dv.subrange(done@.len() as int, dv.len() as int));
                sv_decls(dv) == (decls_view(done@) + nr, rr)
            }),
        decreases rest@.len(),
    {
        let k = done.len();
        let ghost sub = dv.subrange(k as int, dv.len() as int);
        assert(sub[0] == dv[k as int]);
        assert(sub.drop_first() =~= dv.subrange(k + 1, dv.len() as int));
        let d = rest.remove(0);
        assert(d == orig[k as int]);
        assert(dv[k as int] == d@);
        let ghost old_done = done@;
        let (nd, r) = match d {
            Decl::FuncDecl(f) => {
                let FuncDeclaration { identifier, func_type, params, body, storage, span } = f;
                match body {
                    Some(b) => {
                        assert(items_ok(items_view(b.items@)));
                        let (items, r) = collector.visit_items(b.items);
                        (Decl::FuncDecl(FuncDeclaration { identifier, func_type, params, body: Some(Block { items }), storage, span }), r)
                    },
                    None => (Decl::FuncDecl(FuncDeclaration { identifier, func_type, params, body: None, storage, span }), Ok(())),
                }
            },
            other => (other, Ok(())),
        };
        done.push(nd);
        assert(decls_view(done@) =~= decls_view(old_done) + seq![nd@]);
        match r {
            Ok(()) => {
                proof {
                    let (nr, r1) = sv_decls(dv.subrange(k + 1, dv.len() as int));
                    assert(decls_view(old_done) + (seq![nd@] + nr) =~= decls_view(done@) + nr);
                }
            },
            Err(e) => {
                let ghost before = done@;
                let ghost rv = rest@;
                done.append(&mut rest);
                assert(decls_view(done@) =~= decls_view(before) + decls_view(rv));
                assert(decls_view(rv) =~= dv.subrange(k + 1, dv.len() as int));
                assert(sv_decls(sub).1 == Err::<(), SemanticErrorV>(e@));
                assert(sv_decls(sub).0 == seq![nd@] + dv.subrange(k + 1, dv.len() as int));
                assert(decls_view(old_done) + (seq![nd@] + dv.subrange(k + 1, dv.len() as int)) =~= decls_view(done@));
                program.declarations = done;
                return Err(e);
            },
        }
    }
    assert(dv.subrange(done@.len() as int, dv.len() as int) =~= Seq::<DeclV>::empty());
    assert(decls_view(done@) + Seq::<DeclV>::empty() =~= decls_view(done@));
    program.declarations = done;
    Ok(())
}

} // verus!

verus! {

/// Law: the unary operators of a constant case expression follow C: `-x` is
/// the negation of `x`, `~x` is `-x - 1`, and `!x` is 1 exactly when `x` is 0.
pub proof fn lemma_eval_unary(e: ExprV)
    requires
        eval_safe(e),
    ensures
        match e.kind {
            ExprKindV::Unary(op, x) => eval(*x) is Some ==> eval(e) is Some && {
                let v = eval(*x)->0 as int;
                let w = eval(e)->0 as int;
                match op {
                    UnaryOp::Negate => w == -v,
                    UnaryOp::Complement => w == -v - 1,
                    UnaryOp::Not => (w == 1 && v == 0) || (w == 0 && v != 0),
                }
            },
            _ => true,
        },
{
    match e.kind {
        ExprKindV::Unary(op, x) => {
            match eval(*x) {
                Some(v) => {
                    if op is Complement {
                        assert((!v) as int == -(v as int) - 1) by (bit_vector);
                    }
                },
                None => {},
            }
        },
        _ => {},
    }
}

/// Law: the arithmetic, comparison and logical operators of a constant case
/// expression follow C on the values of the operands: exact sums,
/// differences and products, comparisons and `&&`/`||` giving 1 or 0, and
/// no value for a division or remainder by zero.
pub proof fn lemma_eval_binary(e: ExprV)
    requires
        eval_safe(e),
    ensures
        match e.kind {
            ExprKindV::Binary(op, l, r) => eval(*l) is Some && eval(*r) is Some ==> {
                let a = eval(*l)->0 as int;
                let b = eval(*r)->0 as int;
                let w = eval(e)->0 as int;
                match op {
                    BinaryOp::Add => eval(e) is Some && w == a + b,
                    BinaryOp::Subtract => eval(e) is Some && w == a - b,
                    BinaryOp::Multiply => eval(e) is Some && w == a * b,
                    BinaryOp::Divide | BinaryOp::Remainder => (eval(e) is None) == (b == 0),
                    BinaryOp::LessThan => eval(e) is Some && (w == 1) == (a < b) && (w == 0) == !(a < b),
                    BinaryOp::LessOrEqual => eval(e) is Some && (w == 1) == (a <= b) && (w == 0) == !(a <= b),
                    BinaryOp::GreaterThan => eval(e) is Some && (w == 1) == (a > b) && (w == 0) == !(a > b),
                    BinaryOp::GreaterOrEqual => eval(e) is Some && (w == 1) == (a >= b) && (w == 0) == !(a >= b),
                    BinaryOp::Equal => eval(e) is Some && (w == 1) == (a == b) && (w == 0) == (a != b),
                    BinaryOp::NotEqual => eval(e) is Some && (w == 1) == (a != b) && (w == 0) == (a == b),
                    BinaryOp::LogicalAnd => eval(e) is Some && (w == 1) == (a != 0 && b != 0) && (w == 0) == !(a != 0 && b != 0),
                    BinaryOp::LogicalOr => eval(e) is Some && (w == 1) == (a != 0 || b != 0) && (w == 0) == !(a != 0 || b != 0),
                    BinaryOp::Assign | BinaryOp::OpSet(_) | BinaryOp::Ternary => eval(e) is None,
                    _ => eval(e) is Some,
                }
    
            },
            _ => true,
        },
{
}

/// Law: division and remainder of constant case expressions round toward
/// zero, as in C. With `q` the value of `l / r` and `m` that of `l % r`:
/// `q * r + m == l`, `m` is smaller than `r` in magnitude, and a nonzero
/// `m` has the sign of `l`.
pub proof fn lemma_eval_division(l: ExprV, r: ExprV, span: Span, ty: Option<TypeV>)
    requires
        eval_safe(ExprV { kind: ExprKindV::Binary(BinaryOp::Divide, Box::new(l), Box::new(r)), ty, span }),
        eval(l) is Some,
        eval(r) is Some,
        eval(r)->0 != 0,
    ensures
        ({
            let a = eval(l)->0 as int;
            let b = eval(r)->0 as int;
            let q = eval(ExprV { kind: ExprKindV::Binary(BinaryOp::Divide, Box::new(l), Box::new(r)), ty, span });
            let m = eval(ExprV { kind: ExprKindV::Binary(BinaryOp::Remainder, Box::new(l), Box::new(r)), ty, span });
            &&& q is Some
            &&& m is Some
            &&& (q->0 as int) * b + (m->0 as int) == a
            &&& -b < (m->0 as int) < b || b < (m->0 as int) < -b
            &&& (m->0 as int) == 0 || ((m->0 as int) < 0) == (a < 0)
        }),
{
    let a = eval(l)->0 as int;
    let b = eval(r)->0 as int;
    lemma_truncated_division(a, b);
}

/// Division rounding toward zero and its remainder put `a` back together,
/// and neither is larger than `a` in magnitude.
proof fn lemma_truncated_division(a: int, b: int)
    requires
        b != 0,
    ensures
        tdiv(a, b) * b + trem(a, b) == a,
        -b < trem(a, b) < b || b < trem(a, b) < -b,
        trem(a, b) == 0 || (trem(a, b) < 0) == (a < 0),
        -magnitude(a) <= tdiv(a, b) <= magnitude(a),
        (b >= 2 || b <= -2) ==> -magnitude(a) <= 2 * tdiv(a, b) <= magnitude(a),
        -magnitude(a) <= trem(a, b) <= magnitude(a),
{
    let na = magnitude(a);
    assert((na / b) * b + na % b == na && 0 <= na % b && (na % b < b || na % b < -b)) by (nonlinear_arith)
        requires b != 0, na >= 0;
    assert(-na <= na / b <= na) by (nonlinear_arith)
        requires b != 0, na >= 0;
    assert((b >= 2 || b <= -2) ==> -na <= 2 * (na / b) <= na) by (nonlinear_arith)
        requires b != 0, na >= 0;
    assert(na % b <= na) by (nonlinear_arith)
        requires b != 0, na >= 0;
    if a < 0 {
        assert(-(na / b) * b == -((na / b) * b)) by (nonlinear_arith);
    }
}

/// The magnitude of `a`.
pub open spec fn magnitude(a: int) -> int {
    if a >= 0 {
        a
    } else {
        -a
    }
}

} // verus!
