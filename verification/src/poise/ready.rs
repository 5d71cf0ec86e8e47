use vstd::prelude::*;

use crate::parser::ast::{
    BinaryOp, BlockItem, BlockItemV, Decl, DeclV, ExprV, Expression, ExpressionKind, ForInit, Program, Statement,
    StatementKind, VarDeclaration, cases_view, exprs_view, item_view, items_view, lemma_exprs_view, lemma_items_view,
};
use crate::parser::stmt::decls_view;
use crate::poise::gen::{
    args_ok, args_size, cases_ok, csize, decl_ok, esize, gen_ok, has_tmp_prefix, init_size, isize, item_ok, item_size, items_ok,
    opt_esize, prog_ok, psize, ssize, stmt_ok, var_ok, vsize,
};
use crate::text::chars_of;
use crate::types::{IdentAttrs, SymbolTable};

verus! {

broadcast use vstd::std_specs::vec::group_vec_axioms, vstd::seq::group_seq_axioms;

/// `n`, or `u64::MAX` where it is larger.
pub open spec fn capped(n: int) -> int {
    if n > u64::MAX {
        u64::MAX as int
    } else {
        n
    }
}

/// `a + b`, capped.
pub(crate) fn sat_add(a: u64, b: u64) -> (r: u64)
    ensures
        r == capped(a + b),
{
    if a > u64::MAX - b {
        u64::MAX
    } else {
        a + b
    }
}

/// Capping the parts of a sum of sizes and then the sum caps the sum.
proof fn lemma_capped_add(a: int, b: int)
    requires
        a >= 0,
        b >= 0,
    ensures
        capped(capped(a) + capped(b)) == capped(a + b),
{
}

/// `args_ok` holds when each argument is one the generator handles.
proof fn lemma_args_ok(args: Seq<ExprV>)
    ensures
        args_ok(args) <==> forall|i: int| 0 <= i < args.len() ==> gen_ok(#[trigger] args[i]),
    decreases args.len(),
{
    if args.len() > 0 {
        let rest = args.subrange(1, args.len() as int);
        lemma_args_ok(rest);
        if forall|i: int| 0 <= i < args.len() ==> gen_ok(#[trigger] args[i]) {
            assert forall|i: int| 0 <= i < rest.len() implies gen_ok(#[trigger] rest[i]) by {
                assert(rest[i] == args[i + 1]);
            }
        }
        if args_ok(args) {
            assert forall|i: int| 0 <= i < args.len() implies gen_ok(#[trigger] args[i]) by {
                if i > 0 {
                    assert(args[i] == rest[i - 1]);
                }
            }
        }
    }
}

/// `items_ok` holds when each item is one the generator handles.
proof fn lemma_items_ok(items: Seq<BlockItemV>, base: SymbolTable)
    ensures
        items_ok(items, base) <==> forall|i: int| 0 <= i < items.len() ==> item_ok(#[trigger] items[i], base),
    decreases items.len(),
{
    if items.len() > 0 {
        let rest = items.subrange(1, items.len() as int);
        lemma_items_ok(rest, base);
        if forall|i: int| 0 <= i < items.len() ==> item_ok(#[trigger] items[i], base) {
            assert forall|i: int| 0 <= i < rest.len() implies item_ok(#[trigger] rest[i], base) by {
                assert(rest[i] == items[i + 1]);
            }
        }
        if items_ok(items, base) {
            assert forall|i: int| 0 <= i < items.len() implies item_ok(#[trigger] items[i], base) by {
                if i > 0 {
                    assert(items[i] == rest[i - 1]);
                }
            }
        }
    }
}

/// Whether `n` is named like a temporary.
fn tmp_named(n: &String) -> (r: bool)
    ensures
        r == has_tmp_prefix(n@),
{
    let cs = chars_of(n);
    let r = cs.len() >= 4 && cs[0] == 't' && cs[1] == 'm' && cs[2] == 'p' && cs[3] == '.';
    proof {
        if cs@.len() >= 4 {
            assert(r == (cs@.subrange(0, 4) =~= seq!['t', 'm', 'p', '.']));
        }
    }
    r
}

/// Whether the generator handles `e` (see [`gen_ok`]).
pub fn expr_ready(e: &Expression) -> (r: bool)
    ensures
        r == gen_ok(e@),
    decreases e,
{
    let ty_ok = match &e.expression_type {
        Some(t) => t.is_scalar(),
        None => false,
    };
    if !ty_ok {
        return false;
    }
    match &e.kind {
        ExpressionKind::Constant(_) => true,
        ExpressionKind::Var(_) => true,
        ExpressionKind::Cast(t, i) => t.is_scalar() && expr_ready(i),
        ExpressionKind::Unary(_, i) => expr_ready(i),
        ExpressionKind::PrefixIncrement(i) => expr_ready(i),
        ExpressionKind::PrefixDecrement(i) => expr_ready(i),
        ExpressionKind::PostfixIncrement(i) => expr_ready(i),
        ExpressionKind::PostfixDecrement(i) => expr_ready(i),
        ExpressionKind::Binary(op, l, r) => !matches!(op, BinaryOp::Assign | BinaryOp::OpSet(_) | BinaryOp::Ternary)
            && expr_ready(l) && expr_ready(r),
        ExpressionKind::Assignment(l, r) => expr_ready(l) && expr_ready(r),
        ExpressionKind::Conditional(c, y, n) => expr_ready(c) && expr_ready(y) && expr_ready(n),
        ExpressionKind::FunctionCall(_, args) => {
            let ghost av = exprs_view(args@);
            proof {
                lemma_exprs_view(args@);
                lemma_args_ok(av);
            }
            let mut i: usize = 0;
            while i < args.len()
                invariant
                    i <= args@.len(),
                    av == exprs_view(args@),
                    av.len() == args@.len(),
                    forall|j: int| 0 <= j < args@.len() ==> #[trigger] av[j] == args@[j]@,
                    e.kind is FunctionCall && e.kind->FunctionCall_1 == *args,
                    gen_ok(e@) == (forall|j: int| 0 <= j < av.len() ==> gen_ok(#[trigger] av[j])),
                    forall|j: int| 0 <= j < i ==> gen_ok(#[trigger] av[j]),
                decreases args@.len() - i,
            {
                proof {
                    vstd::std_specs::vec::axiom_vec_index_decreases(*args, i as int);
                    assert(decreases_to!(*e => args@[i as int]));
                }
                if !expr_ready(&args[i]) {
                    assert(!gen_ok(av[i as int]));
                    return false;
                }
                i = i + 1;
            }
            true
        },
    }
}

/// `esize(e@)`, capped.
fn expr_size(e: &Expression) -> (r: u64)
    ensures
        r == capped(esize(e@) as int),
    decreases e,
{
    let inner = match &e.kind {
        ExpressionKind::Constant(_) => 0,
        ExpressionKind::Var(_) => 0,
        ExpressionKind::Cast(_, i) => expr_size(i),
        ExpressionKind::Unary(_, i) => expr_size(i),
        ExpressionKind::PrefixIncrement(i) => expr_size(i),
        ExpressionKind::PrefixDecrement(i) => expr_size(i),
        ExpressionKind::PostfixIncrement(i) => expr_size(i),
        ExpressionKind::PostfixDecrement(i) => expr_size(i),
        ExpressionKind::Binary(_, l, r) => {
            proof {
                lemma_capped_add(esize(l@) as int, esize(r@) as int);
            }
            sat_add(expr_size(l), expr_size(r))
        },
        ExpressionKind::Assignment(l, r) => {
            proof {
                lemma_capped_add(esize(l@) as int, esize(r@) as int);
            }
            sat_add(expr_size(l), expr_size(r))
        },
        ExpressionKind::Conditional(c, y, n) => {
            proof {
                lemma_capped_add(esize(c@) as int, esize(y@) as int);
                lemma_capped_add((esize(c@) + esize(y@)) as int, esize(n@) as int);
            }
            sat_add(sat_add(expr_size(c), expr_size(y)), expr_size(n))
        },
        ExpressionKind::FunctionCall(_, args) => {
            let ghost av = exprs_view(args@);
            proof {
                lemma_exprs_view(args@);
            }
            let mut acc: u64 = 0;
            let mut i: usize = args.len();
            assert(av.subrange(i as int, av.len() as int) =~= Seq::<ExprV>::empty());
            while i > 0
                invariant
                    i <= args@.len(),
                    av == exprs_view(args@),
                    av.len() == args@.len(),
                    forall|j: int| 0 <= j < args@.len() ==> #[trigger] av[j] == args@[j]@,
                    e.kind is FunctionCall && e.kind->FunctionCall_1 == *args,
                    acc == capped(args_size(av.subrange(i as int, av.len() as int)) as int),
                decreases i,
            {
                let k = i - 1;
                proof {
                    vstd::std_specs::vec::axiom_vec_index_decreases(*args, k as int);
                    assert(decreases_to!(*e => args@[k as int]));
                    let sub = av.subrange(k as int, av.len() as int);
                    assert(sub[0] == av[k as int]);
                    assert(sub.subrange(1, sub.len() as int) =~= av.subrange(i as int, av.len() as int));
                    lemma_capped_add(esize(av[k as int]) as int, args_size(av.subrange(i as int, av.len() as int)) as int);
                }
                acc = sat_add(expr_size(&args[k]), acc);
                i = k;
            }
            assert(av.subrange(0, av.len() as int) =~= av);
            proof {
                lemma_capped_add(args_size(av) as int, args@.len() as int);
            }
            sat_add(acc, args.len() as u64)
        },
    };
    proof {
        lemma_capped_add(1, (esize(e@) - 1) as int);
    }
    sat_add(1, inner)
}

fn opt_expr_size(e: &Option<Expression>) -> (r: u64)
    ensures
        r == capped(opt_esize(crate::parser::ast::opt_expr_view(*e)) as int),
{
    match e {
        Some(x) => expr_size(x),
        None => 0,
    }
}

fn var_size(d: &VarDeclaration) -> (r: u64)
    ensures
        r == capped(vsize(d@) as int),
{
    proof {
        lemma_capped_add(1, opt_esize(d@.init) as int);
    }
    sat_add(1, opt_expr_size(&d.init))
}

/// Whether the generator handles the declaration `d` (see [`var_ok`]).
fn var_ready(d: &VarDeclaration, base: &SymbolTable) -> (r: bool)
    ensures
        r == var_ok(d@, *base),
{
    match &d.init {
        None => true,
        Some(e) => match base.get(&d.identifier) {
            None => false,
            Some(sym) => sym.datatype.is_scalar() && (expr_ready(e) || (matches!(sym.attrs, IdentAttrs::StaticAttr { .. })
                && !tmp_named(&d.identifier))),
        },
    }
}

/// Whether the generator handles `s` (see [`stmt_ok`]).
pub fn stmt_ready(s: &Statement, base: &SymbolTable) -> (r: bool)
    ensures
        r == stmt_ok(s@, *base),
    decreases s,
{
    match &s.kind {
        StatementKind::Return(e) => expr_ready(e),
        StatementKind::Expression(e) => expr_ready(e),
        StatementKind::If(c, y, n) => expr_ready(c) && stmt_ready(y, base) && match n {
            Some(n) => stmt_ready(n, base),
            None => true,
        },
        StatementKind::Compound(block) => {
            assert(decreases_to!(*s => block.items));
            items_ready(&block.items, base)
        },
        StatementKind::Label(_, b) => stmt_ready(b, base),
        StatementKind::While { cond, body, .. } => expr_ready(cond) && stmt_ready(body, base),
        StatementKind::DoWhile { body, cond, .. } => expr_ready(cond) && stmt_ready(body, base),
        StatementKind::For { init, cond, post, body, .. } => {
            let init_ok = match init {
                ForInit::InitDec(d) => var_ready(d, base),
                ForInit::InitExp(Some(e)) => expr_ready(e),
                ForInit::InitExp(None) => true,
            };
            let cond_ok = match cond {
                Some(c) => expr_ready(c),
                None => true,
            };
            let post_ok = match post {
                Some(p) => expr_ready(p),
                None => true,
            };
            init_ok && cond_ok && post_ok && stmt_ready(body, base)
        },
        StatementKind::Switch { scrutinee, body, cases, .. } => {
            if !expr_ready(scrutinee) {
                return false;
            }
            let ghost cv = cases_view(cases@);
            let mut i: usize = 0;
            while i < cases.len()
                invariant
                    i <= cases@.len(),
                    cv == cases_view(cases@),
                    cv.len() == cases@.len(),
                    s.kind is Switch && s.kind->cases == *cases,
                    stmt_ok(s@, *base) == (cases_ok(cv) && stmt_ok((**body)@, *base)),
                    forall|j: int| 0 <= j < i && (#[trigger] cv[j]).0 is Some ==> gen_ok(cv[j].0->0),
                decreases cases@.len() - i,
            {
                match &cases[i].0 {
                    Some(e) => {
                        if !expr_ready(e) {
                            assert(cv[i as int].0 is Some && !gen_ok(cv[i as int].0->0));
                            return false;
                        }
                    },
                    None => {},
                }
                i = i + 1;
            }
            stmt_ready(body, base)
        },
        _ => true,
    }
}

/// Whether the generator handles every item of a block (see [`items_ok`]).
fn items_ready(items: &Vec<BlockItem>, base: &SymbolTable) -> (r: bool)
    ensures
        r == items_ok(items_view(items@), *base),
    decreases items,
{
    let ghost iv = items_view(items@);
    proof {
        lemma_items_view(items@);
        lemma_items_ok(iv, *base);
    }
    let mut i: usize = 0;
    while i < items.len()
        invariant
            i <= items@.len(),
            iv == items_view(items@),
            iv.len() == items@.len(),
            forall|j: int| 0 <= j < items@.len() ==> #[trigger] iv[j] == item_view(items@[j]),
            items_ok(iv, *base) == (forall|j: int| 0 <= j < iv.len() ==> item_ok(#[trigger] iv[j], *base)),
            forall|j: int| 0 <= j < i ==> item_ok(#[trigger] iv[j], *base),
        decreases items@.len() - i,
    {
        proof {
            vstd::std_specs::vec::axiom_vec_index_decreases(*items, i as int);
        }
        let ok = match &items[i] {
            BlockItem::S(st) => {
                assert(decreases_to!(*items => st));
                stmt_ready(st, base)
            },
            BlockItem::D(Decl::VarDecl(d)) => var_ready(d, base),
            BlockItem::D(Decl::FuncDecl(_)) => true,
        };
        if !ok {
            assert(!item_ok(iv[i as int], *base));
            return false;
        }
        i = i + 1;
    }
    true
}

/// `isize(items_view(items@))`, capped.
fn items_size(items: &Vec<BlockItem>) -> (r: u64)
    ensures
        r == capped(isize(items_view(items@)) as int),
    decreases items,
{
    let ghost iv = items_view(items@);
    proof {
        lemma_items_view(items@);
    }
    let mut acc: u64 = 0;
    let mut i: usize = items.len();
    assert(iv.subrange(i as int, iv.len() as int) =~= Seq::<BlockItemV>::empty());
    while i > 0
        invariant
            i <= items@.len(),
            iv == items_view(items@),
            iv.len() == items@.len(),
            forall|j: int| 0 <= j < items@.len() ==> #[trigger] iv[j] == item_view(items@[j]),
            acc == capped(isize(iv.subrange(i as int, iv.len() as int)) as int),
        decreases i,
    {
        let k = i - 1;
        proof {
            vstd::std_specs::vec::axiom_vec_index_decreases(*items, k as int);
            let sub = iv.subrange(k as int, iv.len() as int);
            assert(sub[0] == iv[k as int]);
            assert(sub.subrange(1, sub.len() as int) =~= iv.subrange(i as int, iv.len() as int));
            lemma_capped_add(item_size(iv[k as int]) as int, isize(iv.subrange(i as int, iv.len() as int)) as int);
        }
        let n = match &items[k] {
            BlockItem::S(st) => {
                assert(decreases_to!(*items => st));
                stmt_size(st)
            },
            BlockItem::D(Decl::VarDecl(d)) => var_size(d),
            BlockItem::D(Decl::FuncDecl(_)) => 0,
        };
        acc = sat_add(n, acc);
        i = k;
    }
    assert(iv.subrange(0, iv.len() as int) =~= iv);
    acc
}

/// `ssize(s@)`, capped.
fn stmt_size(s: &Statement) -> (r: u64)
    ensures
        r == capped(ssize(s@) as int),
    decreases s,
{
    let inner: u64 = match &s.kind {
        StatementKind::Return(e) => expr_size(e),
        StatementKind::Expression(e) => expr_size(e),
        StatementKind::If(c, y, n) => {
            let ghost a = esize(c@) as int;
            let ghost b = ssize(y@) as int;
            let ghost d: int = match n {
                Some(n) => ssize(n@) as int,
                None => 0,
            };
            proof {
                lemma_capped_add(1, a);
                lemma_capped_add(1 + a, b);
                lemma_capped_add(1 + a + b, d);
            }
            let x = sat_add(sat_add(1, expr_size(c)), stmt_size(y));
            let z = match n {
                Some(n) => stmt_size(n),
                None => 0,
            };
            sat_add(x, z)
        },
        StatementKind::Compound(block) => {
            assert(decreases_to!(*s => block.items));
            items_size(&block.items)
        },
        StatementKind::Label(_, b) => stmt_size(b),
        StatementKind::While { cond, body, .. } => {
            proof {
                lemma_capped_add(esize(cond@) as int, ssize(body@) as int);
            }
            sat_add(expr_size(cond), stmt_size(body))
        },
        StatementKind::DoWhile { body, cond, .. } => {
            proof {
                lemma_capped_add(esize(cond@) as int, ssize(body@) as int);
            }
            sat_add(expr_size(cond), stmt_size(body))
        },
        StatementKind::For { init, cond, post, body, .. } => {
            let ghost sv = s@;
            let i = match init {
                ForInit::InitDec(d) => var_size(d),
                ForInit::InitExp(e) => opt_expr_size(e),
            };
            let ghost (iv, cv, pv, bv) = match sv.kind {
                crate::parser::ast::StmtKindV::For { init, cond, post, body, .. } => (
                    init_size(init) as int,
                    opt_esize(cond) as int,
                    opt_esize(post) as int,
                    ssize(*body) as int,
                ),
                _ => (0, 0, 0, 0),
            };
            proof {
                lemma_capped_add(iv, cv);
                lemma_capped_add(iv + cv, pv);
                lemma_capped_add(iv + cv + pv, bv);
            }
            sat_add(sat_add(sat_add(i, opt_expr_size(cond)), opt_expr_size(post)), stmt_size(body))
        },
        StatementKind::Switch { scrutinee, body, cases, .. } => {
            let ghost cv = cases_view(cases@);
            let mut acc: u64 = 0;
            let mut i: usize = cases.len();
            assert(cv.subrange(i as int, cv.len() as int) =~= Seq::<(Option<ExprV>, Seq<char>)>::empty());
            while i > 0
                invariant
                    i <= cases@.len(),
                    cv == cases_view(cases@),
                    cv.len() == cases@.len(),
                    acc == capped(csize(cv.subrange(i as int, cv.len() as int)) as int),
                decreases i,
            {
                let k = i - 1;
                let ghost sub = cv.subrange(k as int, cv.len() as int);
                let ghost first: int = if cv[k as int].0 is Some { 1 + esize(cv[k as int].0->0) as int } else { 0 };
                proof {
                    assert(sub[0] == cv[k as int]);
                    assert(sub.drop_first() =~= cv.subrange(i as int, cv.len() as int));
                    lemma_capped_add(first, csize(cv.subrange(i as int, cv.len() as int)) as int);
                }
                let n = match &cases[k].0 {
                    Some(e) => {
                        proof {
                            lemma_capped_add(1, esize(e@) as int);
                        }
                        sat_add(1, expr_size(e))
                    },
                    None => 0,
                };
                acc = sat_add(n, acc);
                i = k;
            }
            assert(cv.subrange(0, cv.len() as int) =~= cv);
            proof {
                lemma_capped_add(esize(scrutinee@) as int, csize(cv) as int);
                lemma_capped_add((esize(scrutinee@) + csize(cv)) as int, ssize(body@) as int);
            }
            sat_add(sat_add(expr_size(scrutinee), acc), stmt_size(body))
        },
        _ => 0,
    };
    proof {
        lemma_capped_add(1, (ssize(s@) - 1) as int);
    }
    sat_add(1, inner)
}

/// Whether [`gen_poise`](crate::poise::gen::gen_poise) handles `tree` with
/// the table `symbols`: the statements and declarations of every body are
/// ones it handles, and the temporaries and labels it may need fit.
pub fn poise_ready(tree: &Program, symbols: &SymbolTable) -> (r: bool)
    ensures
        r == (prog_ok(decls_view(tree.declarations@), *symbols) && 2 * psize(decls_view(tree.declarations@)) <= usize::MAX),
{
    let ghost dv = decls_view(tree.declarations@);
    let ds = &tree.declarations;
    let mut ok = true;
    let mut acc: u64 = 0;
    let mut i: usize = ds.len();
    assert(dv.subrange(i as int, dv.len() as int) =~= Seq::<DeclV>::empty());
    while i > 0
        invariant
            i <= ds@.len(),
            dv == decls_view(ds@),
            dv.len() == ds@.len(),
            acc == capped(psize(dv.subrange(i as int, dv.len() as int)) as int),
            ok == (forall|j: int| i <= j < dv.len() ==> decl_ok(#[trigger] dv[j], *symbols)),
        decreases i,
    {
        let k = i - 1;
        let ghost sub = dv.subrange(k as int, dv.len() as int);
        assert(dv[k as int] == ds@[k as int]@);
        let (n, good) = match &ds[k] {
            Decl::FuncDecl(f) => match &f.body {
                Some(b) => (items_size(&b.items), items_ready(&b.items, symbols)),
                None => (0, true),
            },
            Decl::VarDecl(_) => (0, true),
        };
        proof {
            assert(sub[0] == dv[k as int]);
            assert(sub.drop_first() =~= dv.subrange(i as int, dv.len() as int));
            let first: int = match dv[k as int] {
                DeclV::FuncDecl(f) => if f.body is Some { isize(f.body->0) as int } else { 0 },
                _ => 0,
            };
            lemma_capped_add(first, psize(dv.subrange(i as int, dv.len() as int)) as int);
        }
        acc = sat_add(n, acc);
        ok = ok && good;
        i = k;
    }
    assert(dv.subrange(0, dv.len() as int) =~= dv);
    ok && acc <= (usize::MAX / 2) as u64
}

} // verus!
