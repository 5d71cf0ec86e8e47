use vstd::prelude::*;

use crate::lexer::Span;
use crate::parser::ast::{
    Block, BlockItem, BlockItemV, Const, ConstV, Decl, DeclV, ExprKindV, ExprV, Expression, ExpressionKind, ForInit,
    ForInitV, FuncDeclV, FuncDeclaration, Program, Statement, StatementKind, StmtKindV, StmtV, items_view, lemma_items_view,
};
use crate::parser::stmt::decls_view;
use crate::semanal::SemanticError;
use crate::semanal::switch_collector::{isz, itsz, ssz};
use crate::text::{chars_of, string_from_chars};

verus! {

broadcast use vstd::std_specs::vec::group_vec_axioms, vstd::seq::group_seq_axioms;

/// `s` with every `continue` of the loop `tgt` turned into a jump to `new`.
pub open spec fn cont_rw(s: StmtV, tgt: Seq<char>, new: Seq<char>) -> StmtV
    decreases s,
{
    let kind = match s.kind {
        StmtKindV::Continue(l) => if l == tgt { StmtKindV::Goto(new) } else { s.kind },
        StmtKindV::If(c, y, n) => StmtKindV::If(
            c,
            Box::new(cont_rw(*y, tgt, new)),
            match n {
                Some(nn) => Some(Box::new(cont_rw(*nn, tgt, new))),
                None => None,
            },
        ),
        StmtKindV::Compound(items) => StmtKindV::Compound(items_rw(items, tgt, new)),
        StmtKindV::Label(l, b) => StmtKindV::Label(l, Box::new(cont_rw(*b, tgt, new))),
        StmtKindV::For { init, cond, post, body, lab } => StmtKindV::For {
            init,
            cond,
            post,
            body: Box::new(cont_rw(*body, tgt, new)),
            lab,
        },
        StmtKindV::While { cond, body, lab } => StmtKindV::While { cond, body: Box::new(cont_rw(*body, tgt, new)), lab },
        StmtKindV::DoWhile { body, cond, lab } => StmtKindV::DoWhile { body: Box::new(cont_rw(*body, tgt, new)), cond, lab },
        StmtKindV::Switch { scrutinee, body, lab, cases } => StmtKindV::Switch {
            scrutinee,
            body: Box::new(cont_rw(*body, tgt, new)),
            lab,
            cases,
        },
        _ => s.kind,
    };
    StmtV { kind, span: s.span }
}

pub open spec fn items_rw(items: Seq<BlockItemV>, tgt: Seq<char>, new: Seq<char>) -> Seq<BlockItemV>
    decreases items,
{
    if items.len() == 0 {
        items
    } else {
        seq![item_rw(items[0], tgt, new)] + items_rw(items.subrange(1, items.len() as int), tgt, new)
    }
}

pub open spec fn item_rw(item: BlockItemV, tgt: Seq<char>, new: Seq<char>) -> BlockItemV
    decreases item,
{
    match item {
        BlockItemV::S(s) => BlockItemV::S(cont_rw(s, tgt, new)),
        _ => item,
    }
}

/// The label the increment of the loop `lab` gets.
pub open spec fn post_label(lab: Seq<char>) -> Seq<char> {
    lab + seq!['_', 'p', 'o', 's', 't']
}

/// The new loop body: the rewritten body, then the increment under the label `pl`.
pub open spec fn lowered_body(nb: StmtV, post: Option<ExprV>, pl: Seq<char>, span: Span) -> StmtV {
    let post_stmt = StmtV {
        kind: match post {
            Some(e) => StmtKindV::Expression(e),
            None => StmtKindV::Null,
        },
        span,
    };
    let labeled = StmtV { kind: StmtKindV::Label(pl, Box::new(post_stmt)), span };
    StmtV { kind: StmtKindV::Compound(seq![BlockItemV::S(nb), BlockItemV::S(labeled)]), span }
}

/// The block that replaces a `for` loop: its initializer, then `newloop`.
pub open spec fn lowered_block(init: ForInitV, newloop: StmtV, span: Span) -> StmtV {
    let outer = match init {
        ForInitV::InitDec(d) => seq![BlockItemV::D(DeclV::VarDecl(d))],
        ForInitV::InitExp(Some(e)) => seq![BlockItemV::S(StmtV { kind: StmtKindV::Expression(e), span })],
        ForInitV::InitExp(None) => Seq::empty(),
    };
    StmtV { kind: StmtKindV::Compound(outer.push(BlockItemV::S(newloop))), span }
}

/// A `for` loop as a block: its initializer, then a `while` loop whose body
/// is the old body followed by the increment under a label that the
/// loop's `continue`s now jump to; a missing condition is the constant 1.
pub open spec fn lower_for(
    init: ForInitV,
    cond: Option<ExprV>,
    post: Option<ExprV>,
    body: StmtV,
    lab: Seq<char>,
    span: Span,
) -> StmtV {
    let pl = post_label(lab);
    let newbod = lowered_body(cont_rw(body, lab, pl), post, pl, span);
    let newcond = match cond {
        Some(c) => c,
        None => ExprV { kind: ExprKindV::Constant(ConstV::Int(1)), ty: None, span },
    };
    let newloop = StmtV { kind: StmtKindV::While { cond: newcond, body: Box::new(newbod), lab }, span };
    lowered_block(init, newloop, span)
}

/// `s` with every `for` loop lowered, innermost first.
pub open spec fn desugar(s: StmtV) -> StmtV
    decreases s,
{
    match s.kind {
        StmtKindV::If(c, y, n) => StmtV {
            kind: StmtKindV::If(
                c,
                Box::new(desugar(*y)),
                match n {
                    Some(nn) => Some(Box::new(desugar(*nn))),
                    None => None,
                },
            ),
            span: s.span,
        },
        StmtKindV::Compound(items) => StmtV { kind: StmtKindV::Compound(items_ds(items)), span: s.span },
        StmtKindV::Label(l, b) => StmtV { kind: StmtKindV::Label(l, Box::new(desugar(*b))), span: s.span },
        StmtKindV::For { init, cond, post, body, lab } => lower_for(init, cond, post, desugar(*body), lab, s.span),
        StmtKindV::While { cond, body, lab } => StmtV {
            kind: StmtKindV::While { cond, body: Box::new(desugar(*body)), lab },
            span: s.span,
        },
        StmtKindV::DoWhile { body, cond, lab } => StmtV {
            kind: StmtKindV::DoWhile { body: Box::new(desugar(*body)), cond, lab },
            span: s.span,
        },
        StmtKindV::Switch { scrutinee, body, lab, cases } => StmtV {
            kind: StmtKindV::Switch { scrutinee, body: Box::new(desugar(*body)), lab, cases },
            span: s.span,
        },
        _ => s,
    }
}

pub open spec fn items_ds(items: Seq<BlockItemV>) -> Seq<BlockItemV>
    decreases items,
{
    if items.len() == 0 {
        items
    } else {
        seq![item_ds(items[0])] + items_ds(items.subrange(1, items.len() as int))
    }
}

pub open spec fn item_ds(item: BlockItemV) -> BlockItemV
    decreases item,
{
    match item {
        BlockItemV::S(s) => BlockItemV::S(desugar(s)),
        _ => item,
    }
}



/// `s` holds no `for` loop.
pub open spec fn no_for(s: StmtV) -> bool
    decreases s,
{
    match s.kind {
        StmtKindV::For { .. } => false,
        StmtKindV::If(_, y, n) => no_for(*y) && match n {
            Some(nn) => no_for(*nn),
            None => true,
        },
        StmtKindV::Compound(items) => items_no_for(items),
        StmtKindV::Label(_, b) => no_for(*b),
        StmtKindV::While { body, .. } => no_for(*body),
        StmtKindV::DoWhile { body, .. } => no_for(*body),
        StmtKindV::Switch { body, .. } => no_for(*body),
        _ => true,
    }
}

pub open spec fn items_no_for(items: Seq<BlockItemV>) -> bool
    decreases items,
{
    items.len() == 0 || (item_no_for(items[0]) && items_no_for(items.subrange(1, items.len() as int)))
}

pub open spec fn item_no_for(item: BlockItemV) -> bool
    decreases item,
{
    match item {
        BlockItemV::S(s) => no_for(s),
        _ => true,
    }
}

/// Turning `continue`s into jumps adds no `for` loop.
pub proof fn lemma_cont_rw_no_for(s: StmtV, tgt: Seq<char>, new: Seq<char>)
    requires
        no_for(s),
    ensures
        no_for(cont_rw(s, tgt, new)),
    decreases s,
{
    reveal_with_fuel(no_for, 2);
    reveal_with_fuel(items_no_for, 2);
    reveal_with_fuel(item_no_for, 2);
    match s.kind {
        StmtKindV::If(_, y, n) => {
            lemma_cont_rw_no_for(*y, tgt, new);
            match n {
                Some(nn) => lemma_cont_rw_no_for(*nn, tgt, new),
                None => {},
            }
        },
        StmtKindV::Compound(items) => lemma_items_rw_no_for(items, tgt, new),
        StmtKindV::Label(_, b) => lemma_cont_rw_no_for(*b, tgt, new),
        StmtKindV::While { body, .. } => lemma_cont_rw_no_for(*body, tgt, new),
        StmtKindV::DoWhile { body, .. } => lemma_cont_rw_no_for(*body, tgt, new),
        StmtKindV::Switch { body, .. } => lemma_cont_rw_no_for(*body, tgt, new),
        _ => {},
    }
}

pub proof fn lemma_items_rw_no_for(items: Seq<BlockItemV>, tgt: Seq<char>, new: Seq<char>)
    requires
        items_no_for(items),
    ensures
        items_no_for(items_rw(items, tgt, new)),
    decreases items,
{
    reveal_with_fuel(no_for, 2);
    reveal_with_fuel(items_no_for, 2);
    reveal_with_fuel(item_no_for, 2);
    if items.len() > 0 {
        let rest = items.subrange(1, items.len() as int);
        match items[0] {
            BlockItemV::S(s) => lemma_cont_rw_no_for(s, tgt, new),
            _ => {},
        }
        lemma_items_rw_no_for(rest, tgt, new);
        let out = items_rw(items, tgt, new);
        assert(out[0] == item_rw(items[0], tgt, new));
        assert(item_no_for(out[0]));
        assert(out.subrange(1, out.len() as int) =~= items_rw(rest, tgt, new));
    }
}

/// Two items with no `for` loop.
proof fn lemma_pair_no_for(a: BlockItemV, b: BlockItemV)
    requires
        item_no_for(a),
        item_no_for(b),
    ensures
        items_no_for(seq![a, b]),
{
    reveal_with_fuel(no_for, 2);
    reveal_with_fuel(items_no_for, 2);
    reveal_with_fuel(item_no_for, 2);
    reveal_with_fuel(items_no_for, 3);
    let p = seq![a, b];
    assert(p.subrange(1, 2) =~= seq![b]);
    assert(seq![b].subrange(1, 1) =~= Seq::<BlockItemV>::empty());
}

/// Desugaring leaves no `for` loop behind.
pub proof fn lemma_desugar_no_for(s: StmtV)
    ensures
        no_for(desugar(s)),
    decreases s,
{
    reveal_with_fuel(no_for, 2);
    reveal_with_fuel(items_no_for, 2);
    reveal_with_fuel(item_no_for, 2);
    match s.kind {
        StmtKindV::If(c, y, n) => {
            lemma_desugar_no_for(*y);
            match n {
                Some(nn) => {
                    lemma_desugar_no_for(*nn);
                    let d = desugar(s);
                    assert(d.kind == StmtKindV::If(c, Box::new(desugar(*y)), Some(Box::new(desugar(*nn)))));
                    assert(no_for(d));
                },
                None => {
                    let d = desugar(s);
                    assert(d.kind == StmtKindV::If(c, Box::new(desugar(*y)), None));
                    assert(no_for(d));
                },
            }
        },
        StmtKindV::Compound(items) => lemma_items_ds_no_for(items),
        StmtKindV::Label(_, b) => lemma_desugar_no_for(*b),
        StmtKindV::For { init, cond, post, body, lab } => {
            lemma_desugar_no_for(*body);
            let pl = post_label(lab);
            lemma_cont_rw_no_for(desugar(*body), lab, pl);
            let nb = cont_rw(desugar(*body), lab, pl);
            let newbod = lowered_body(nb, post, pl, s.span);
            let labeled = match newbod.kind {
                StmtKindV::Compound(its) => its[1],
                _ => BlockItemV::S(nb),
            };
            lemma_pair_no_for(BlockItemV::S(nb), labeled);
            let newcond = match cond {
                Some(c) => c,
                None => ExprV { kind: ExprKindV::Constant(ConstV::Int(1)), ty: None, span: s.span },
            };
            let newloop = StmtV { kind: StmtKindV::While { cond: newcond, body: Box::new(newbod), lab }, span: s.span };
            assert(no_for(newloop));
            let outer = match init {
                ForInitV::InitDec(d) => seq![BlockItemV::D(DeclV::VarDecl(d))],
                ForInitV::InitExp(Some(e)) => seq![BlockItemV::S(StmtV { kind: StmtKindV::Expression(e), span: s.span })],
                ForInitV::InitExp(None) => Seq::empty(),
            };
            let all = outer.push(BlockItemV::S(newloop));
            if outer.len() == 0 {
                assert(all =~= seq![BlockItemV::S(newloop)]);
                assert(all.subrange(1, 1) =~= Seq::<BlockItemV>::empty());
                assert(item_no_for(all[0]));
                assert(items_no_for(all));
            } else {
                lemma_pair_no_for(outer[0], BlockItemV::S(newloop));
                assert(all =~= seq![outer[0], BlockItemV::S(newloop)]);
                assert(items_no_for(all));
            }
            assert(desugar(s) == lowered_block(init, newloop, s.span));
            assert(desugar(s).kind == StmtKindV::Compound(all));
        },
        StmtKindV::While { body, .. } => lemma_desugar_no_for(*body),
        StmtKindV::DoWhile { body, .. } => lemma_desugar_no_for(*body),
        StmtKindV::Switch { body, .. } => lemma_desugar_no_for(*body),
        _ => {},
    }
}

pub proof fn lemma_items_ds_no_for(items: Seq<BlockItemV>)
    ensures
        items_no_for(items_ds(items)),
    decreases items,
{
    reveal_with_fuel(no_for, 2);
    reveal_with_fuel(items_no_for, 2);
    reveal_with_fuel(item_no_for, 2);
    if items.len() > 0 {
        let rest = items.subrange(1, items.len() as int);
        match items[0] {
            BlockItemV::S(s) => lemma_desugar_no_for(s),
            _ => {},
        }
        lemma_items_ds_no_for(rest);
        let out = items_ds(items);
        assert(out[0] == item_ds(items[0]));
        assert(item_no_for(out[0]));
        assert(out.subrange(1, out.len() as int) =~= items_ds(rest));
    }
}

/// `x` followed by `rest`.
pub(crate) fn cons_items(x: BlockItem, rest: Vec<BlockItem>) -> (r: Vec<BlockItem>)
    ensures
        items_view(r@) == seq![x@] + items_view(rest@),
{
    let ghost rs = rest@;
    let mut out: Vec<BlockItem> = Vec::new();
    out.push(x);
    let mut rest = rest;
    out.append(&mut rest);
    proof {
        lemma_items_view(out@);
        lemma_items_view(rs);
        assert(items_view(out@) =~= seq![x@] + items_view(rs));
    }
    out
}

/// Turns the `continue`s of one loop into jumps to a label.
pub struct ContRewrite {
    pub tgt_loop_lab: String,
    pub new_goto_lab: String,
}

impl ContRewrite {
    pub fn visit_statement(&mut self, statement: &mut Statement) -> (r: Result<(), SemanticError>)
        ensures
            r is Ok,
            final(statement)@ == cont_rw(old(statement)@, old(self).tgt_loop_lab@, old(self).new_goto_lab@),
            final(self).tgt_loop_lab == old(self).tgt_loop_lab,
            final(self).new_goto_lab == old(self).new_goto_lab,
    {
        let mut taken = Statement::new(StatementKind::Null, statement.span);
        std::mem::swap(statement, &mut taken);
        *statement = self.rewrite(taken);
        Ok(())
    }

    fn rewrite(&self, st: Statement) -> (r: Statement)
        ensures
            r@ == cont_rw(st@, self.tgt_loop_lab@, self.new_goto_lab@),
        decreases ssz(st@), 0int,
    {
        let span = st.span;
        let kind = match st.kind {
            StatementKind::Continue(l) => if l == self.tgt_loop_lab {
                StatementKind::Goto(self.new_goto_lab.clone())
            } else {
                StatementKind::Continue(l)
            },
            StatementKind::If(c, y, n) => {
                let ny = self.rewrite(*y);
                let nn = match n {
                    Some(nn) => Some(Box::new(self.rewrite(*nn))),
                    None => None,
                };
                StatementKind::If(c, Box::new(ny), nn)
            },
            StatementKind::Compound(block) => StatementKind::Compound(Block { items: self.rewrite_items(block.items) }),
            StatementKind::Label(l, b) => StatementKind::Label(l, Box::new(self.rewrite(*b))),
            StatementKind::For { init, cond, post, body, lab } => StatementKind::For {
                init,
                cond,
                post,
                body: Box::new(self.rewrite(*body)),
                lab,
            },
            StatementKind::While { cond, body, lab } => StatementKind::While { cond, body: Box::new(self.rewrite(*body)), lab },
            StatementKind::DoWhile { body, cond, lab } => StatementKind::DoWhile {
                body: Box::new(self.rewrite(*body)),
                cond,
                lab,
            },
            StatementKind::Switch { scrutinee, body, lab, cases } => StatementKind::Switch {
                scrutinee,
                body: Box::new(self.rewrite(*body)),
                lab,
                cases,
            },
            other => other,
        };
        Statement::new(kind, span)
    }

    fn rewrite_items(&self, items: Vec<BlockItem>) -> (r: Vec<BlockItem>)
        ensures
            items_view(r@) == items_rw(items_view(items@), self.tgt_loop_lab@, self.new_goto_lab@),
        decreases isz(items_view(items@)), 1int,
    {
        let ghost iv = items_view(items@);
        proof {
            lemma_items_view(items@);
        }
        if items.len() == 0 {
            return items;
        }
        let mut rest = items;
        let first = rest.remove(0);
        proof {
            lemma_items_view(rest@);
            assert(items_view(rest@) =~= iv.subrange(1, iv.len() as int));
            assert(iv[0] == first@);
            assert(isz(iv) == itsz(iv[0]) + isz(items_view(rest@)));
        }
        let ghost rv = items_view(rest@);
        let f2 = match first {
            BlockItem::S(s) => {
                BlockItem::S(self.rewrite(s))
            },
            other => other,
        };
        assert(f2@ == item_rw(iv[0], self.tgt_loop_lab@, self.new_goto_lab@));
        let nr = self.rewrite_items(rest);
        assert(items_rw(iv, self.tgt_loop_lab@, self.new_goto_lab@) =~= seq![item_rw(iv[0], self.tgt_loop_lab@, self.new_goto_lab@)] + items_rw(rv, self.tgt_loop_lab@, self.new_goto_lab@));
        cons_items(f2, nr)
    }
}

/// Lowers every `for` loop to a block holding a `while` loop.
pub struct ForDesugarer;

/// The view of a `for` initializer.
pub open spec fn for_init_view(init: ForInit) -> ForInitV {
    match init {
        ForInit::InitDec(d) => ForInitV::InitDec(crate::parser::ast::var_decl_view(d)),
        ForInit::InitExp(e) => ForInitV::InitExp(crate::parser::ast::opt_expr_view(e)),
    }
}

/// The label the increment of the loop `lab` gets.
fn post_label_string(lab: &String) -> (r: String)
    ensures
        r@ == post_label(lab@),
{
    let mut v = chars_of(lab);
    v.push('_');
    v.push('p');
    v.push('o');
    v.push('s');
    v.push('t');
    string_from_chars(&v)
}

impl ForDesugarer {
    pub fn visit_statement(&mut self, statement: &mut Statement) -> (r: Result<(), SemanticError>)
        ensures
            r is Ok,
            final(statement)@ == desugar(old(statement)@),
    {
        let mut taken = Statement::new(StatementKind::Null, statement.span);
        std::mem::swap(statement, &mut taken);
        *statement = self.desugar_owned(taken);
        Ok(())
    }

    fn lower(&self, init: ForInit, cond: Option<Expression>, post: Option<Expression>, body: Statement, lab: String, span: Span) -> (r: Statement)
        ensures
            r@ == lower_for(
                for_init_view(init),
                crate::parser::ast::opt_expr_view(cond),
                crate::parser::ast::opt_expr_view(post),
                body@,
                lab@,
                span,
            ),
    {
        let loop_label = lab.clone();
        let post_label = post_label_string(&loop_label);
        let rewriter = ContRewrite { tgt_loop_lab: loop_label.clone(), new_goto_lab: post_label.clone() };
        let nb = rewriter.rewrite(body);
        let newbod = Self::body_with_post(nb, post, post_label, span);
        let newcond = match cond {
            Some(c) => c,
            None => Expression::new(ExpressionKind::Constant(Const::Int(1)), None, span),
        };
        let newloop = Statement::new(StatementKind::While { cond: newcond, body: Box::new(newbod), lab: loop_label }, span);
        Self::block_with_init(init, newloop, span)
    }

    fn body_with_post(nb: Statement, post: Option<Expression>, pl: String, span: Span) -> (r: Statement)
        ensures
            r@ == lowered_body(nb@, crate::parser::ast::opt_expr_view(post), pl@, span),
    {
        let post_stmt = match post {
            Some(post_expr) => Statement::new(StatementKind::Expression(post_expr), span),
            None => Statement::new(StatementKind::Null, span),
        };
        let labeled_post = Statement::new(StatementKind::Label(pl, Box::new(post_stmt)), span);
        let mut items: Vec<BlockItem> = Vec::new();
        items.push(BlockItem::S(nb));
        items.push(BlockItem::S(labeled_post));
        proof {
            lemma_items_view(items@);
        }
        let ghost bi = items_view(items@);
        assert(bi =~= seq![bi[0], bi[1]]);
        Statement::new(StatementKind::Compound(Block { items }), span)
    }

    fn block_with_init(init: ForInit, newloop: Statement, span: Span) -> (r: Statement)
        ensures
            r@ == lowered_block(for_init_view(init), newloop@, span),
    {
        let ghost iv = for_init_view(init);
        let mut outer: Vec<BlockItem> = Vec::new();
        match init {
            ForInit::InitDec(decl) => {
                outer.push(BlockItem::D(Decl::VarDecl(decl)));
            },
            ForInit::InitExp(Some(expr)) => {
                outer.push(BlockItem::S(Statement::new(StatementKind::Expression(expr), span)));
            },
            ForInit::InitExp(None) => {},
        }
        let ghost outer_before = outer@;
        proof {
            lemma_items_view(outer@);
            let expected = match iv {
                ForInitV::InitDec(d) => seq![BlockItemV::D(DeclV::VarDecl(d))],
                ForInitV::InitExp(Some(e)) => seq![BlockItemV::S(StmtV { kind: StmtKindV::Expression(e), span })],
                ForInitV::InitExp(None) => Seq::empty(),
            };
            assert(items_view(outer_before) =~= expected);
        }
        outer.push(BlockItem::S(newloop));
        proof {
            lemma_items_view(outer@);
            lemma_items_view(outer_before);
            assert(items_view(outer@) =~= items_view(outer_before).push(outer@.last()@));
        }
        Statement::new(StatementKind::Compound(Block { items: outer }), span)
    }

    fn desugar_owned(&self, st: Statement) -> (r: Statement)
        ensures
            r@ == desugar(st@),
        decreases ssz(st@), 0int,
    {
        let span = st.span;
        match st.kind {
            StatementKind::If(c, y, n) => {
                let ny = self.desugar_owned(*y);
                let nn = match n {
                    Some(nn) => Some(Box::new(self.desugar_owned(*nn))),
                    None => None,
                };
                Statement::new(StatementKind::If(c, Box::new(ny), nn), span)
            },
            StatementKind::Compound(block) => Statement::new(
                StatementKind::Compound(Block { items: self.desugar_items(block.items) }),
                span,
            ),
            StatementKind::Label(l, b) => Statement::new(StatementKind::Label(l, Box::new(self.desugar_owned(*b))), span),
            StatementKind::For { init, cond, post, body, lab } => {
                let nb = self.desugar_owned(*body);
                self.lower(init, cond, post, nb, lab, span)
            },
            StatementKind::While { cond, body, lab } => Statement::new(
                StatementKind::While { cond, body: Box::new(self.desugar_owned(*body)), lab },
                span,
            ),
            StatementKind::DoWhile { body, cond, lab } => Statement::new(
                StatementKind::DoWhile { body: Box::new(self.desugar_owned(*body)), cond, lab },
                span,
            ),
            StatementKind::Switch { scrutinee, body, lab, cases } => Statement::new(
                StatementKind::Switch { scrutinee, body: Box::new(self.desugar_owned(*body)), lab, cases },
                span,
            ),
            other => Statement::new(other, span),
        }
    }

    fn desugar_items(&self, items: Vec<BlockItem>) -> (r: Vec<BlockItem>)
        ensures
            items_view(r@) == items_ds(items_view(items@)),
        decreases isz(items_view(items@)), 1int,
    {
        let ghost iv = items_view(items@);
        proof {
            lemma_items_view(items@);
        }
        if items.len() == 0 {
            return items;
        }
        let mut rest = items;
        let first = rest.remove(0);
        proof {
            lemma_items_view(rest@);
            assert(items_view(rest@) =~= iv.subrange(1, iv.len() as int));
            assert(iv[0] == first@);
            assert(isz(iv) == itsz(iv[0]) + isz(items_view(rest@)));
        }
        let ghost rv = items_view(rest@);
        let f2 = match first {
            BlockItem::S(s) => {
                BlockItem::S(self.desugar_owned(s))
            },
            other => other,
        };
        assert(f2@ == item_ds(iv[0]));
        let nr = self.desugar_items(rest);
        assert(items_ds(iv) =~= seq![item_ds(iv[0])] + items_ds(rv));
        cons_items(f2, nr)
    }
}

/// A declaration with every `for` loop of its body lowered.
pub open spec fn decl_ds(d: DeclV) -> DeclV {
    match d {
        DeclV::FuncDecl(f) => match f.body {
            Some(b) => DeclV::FuncDecl(FuncDeclV { body: Some(items_ds(b)), ..f }),
            None => d,
        },
        _ => d,
    }
}


/// Desugaring leaves a statement with no `for` loop as it is.
pub proof fn lemma_desugar_keeps_for_free(s: StmtV)
    requires
        no_for(s),
    ensures
        desugar(s) == s,
    decreases s,
{
    reveal_with_fuel(no_for, 2);
    reveal_with_fuel(items_no_for, 2);
    reveal_with_fuel(item_no_for, 2);
    match s.kind {
        StmtKindV::If(c, y, n) => {
            lemma_desugar_keeps_for_free(*y);
            match n {
                Some(nn) => lemma_desugar_keeps_for_free(*nn),
                None => {},
            }
        },
        StmtKindV::Compound(items) => lemma_items_ds_keeps_for_free(items),
        StmtKindV::Label(_, b) => lemma_desugar_keeps_for_free(*b),
        StmtKindV::While { body, .. } => lemma_desugar_keeps_for_free(*body),
        StmtKindV::DoWhile { body, .. } => lemma_desugar_keeps_for_free(*body),
        StmtKindV::Switch { body, .. } => lemma_desugar_keeps_for_free(*body),
        _ => {},
    }
}

pub proof fn lemma_items_ds_keeps_for_free(items: Seq<BlockItemV>)
    requires
        items_no_for(items),
    ensures
        items_ds(items) == items,
    decreases items,
{
    reveal_with_fuel(items_no_for, 2);
    reveal_with_fuel(item_no_for, 2);
    if items.len() > 0 {
        let rest = items.subrange(1, items.len() as int);
        assert(item_no_for(items[0]));
        match items[0] {
            BlockItemV::S(st) => lemma_desugar_keeps_for_free(st),
            _ => {},
        }
        lemma_items_ds_keeps_for_free(rest);
        assert(item_ds(items[0]) == items[0]);
        assert(items =~= seq![items[0]] + rest);
        assert(items_ds(items) == seq![item_ds(items[0])] + items_ds(rest));
    }
}

/// Desugaring twice does no more than desugaring once.
pub proof fn lemma_desugar_idempotent(s: StmtV)
    ensures
        desugar(desugar(s)) == desugar(s),
{
    lemma_desugar_no_for(s);
    lemma_desugar_keeps_for_free(desugar(s));
}

/// After the pass no function body holds a `for` loop.
pub proof fn lemma_pass_leaves_no_for(d: DeclV)
    ensures
        match decl_ds(d) {
            DeclV::FuncDecl(f) => f.body is Some ==> items_no_for(f.body->0),
            _ => true,
        },
{
    match d {
        DeclV::FuncDecl(f) => match f.body {
            Some(b) => lemma_items_ds_no_for(b),
            None => {},
        },
        _ => {},
    }
}

/// Lowers the `for` loops of every function body in the program.
pub fn for_desugaring_pass(program: &mut Program) -> (r: Result<(), SemanticError>)
    ensures
        r is Ok,
        decls_view(final(program).declarations@) == decls_view(old(program).declarations@).map_values(
            |d: DeclV| decl_ds(d),
        ),
{
    let desugarer = ForDesugarer;
    let mut rest: Vec<Decl> = Vec::new();
    std::mem::swap(&mut program.declarations, &mut rest);
    let ghost orig = rest@;
    let ghost dv = decls_view(orig);
    let mut done: Vec<Decl> = Vec::new();
    assert(decls_view(done@) =~= dv.map_values(|d: DeclV| decl_ds(d)).take(0));
    while rest.len() > 0
        invariant
            dv == decls_view(orig),
            dv.len() == orig.len(),
            done@.len() + rest@.len() == orig.len(),
            rest@ == orig.subrange(done@.len() as int, orig.len() as int),
            decls_view(done@) == dv.map_values(|d: DeclV| decl_ds(d)).take(done@.len() as int),
        decreases rest@.len(),
    {
        let k = done.len();
        let d = rest.remove(0);
        assert(d == orig[k as int]);
        assert(dv[k as int] == d@);
        let ghost old_done = done@;
        let nd = match d {
            Decl::FuncDecl(f) => {
                let FuncDeclaration { identifier, func_type, params, body, storage, span } = f;
                match body {
                    Some(b) => {
                        let items = desugarer.desugar_items(b.items);
                        Decl::FuncDecl(FuncDeclaration { identifier, func_type, params, body: Some(Block { items }), storage, span })
                    },
                    None => Decl::FuncDecl(FuncDeclaration { identifier, func_type, params, body: None, storage, span }),
                }
            },
            other => other,
        };
        done.push(nd);
        assert(decls_view(done@) =~= dv.map_values(|d: DeclV| decl_ds(d)).take(done@.len() as int)) by {
            assert(decls_view(done@) =~= decls_view(old_done) + seq![nd@]);
        }
    }
    assert(dv.map_values(|d: DeclV| decl_ds(d)).take(done@.len() as int) =~= dv.map_values(|d: DeclV| decl_ds(d)));
    program.declarations = done;
    Ok(())
}

} // verus!
