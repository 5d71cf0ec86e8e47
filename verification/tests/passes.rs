use poisecc::lexer::{Span, Tokenizer};
use poisecc::parser::ast::{
    BlockItem, Const, Decl, Expression, ExpressionKind, Program, Statement, StatementKind,
};
use poisecc::parser::Parser;
use poisecc::semanal::for_desugarer::{for_desugaring_pass, ContRewrite, ForDesugarer};
use poisecc::poise::ready::poise_ready;
use poisecc::semanal::switch_collector::{switch_collection_pass, switch_ready, SwitchCollector};
use poisecc::semanal::SemanticError;
use poisecc::semanal::type_checker::{try_type_checking_pass, type_checking_pass};
use poisecc::types::{IdentAttrs, InitialValue, StaticInit, SymbolTable, Type};

fn parse(src: &str) -> Program {
    let mut t = Tokenizer::new(src.to_string());
    let tokens = t.tokenize().unwrap();
    let mut p = Parser::new(tokens);
    p.parse_program().unwrap()
}

/// The first statement of the body of the only function in `src`.
fn first_statement(src: &str) -> Statement {
    let program = parse(src);
    match program.declarations.into_iter().next().unwrap() {
        Decl::FuncDecl(f) => match f.body.unwrap().items.into_iter().next().unwrap() {
            BlockItem::S(s) => s,
            BlockItem::D(_) => panic!("expected a statement"),
        },
        Decl::VarDecl(_) => panic!("expected a function"),
    }
}

/// A switch on `scrutinee` whose scrutinee was typed as `ty`.
fn typed_switch(body: &str, ty: Type) -> Statement {
    let mut s = first_statement(&format!("int main(void) {{ switch (7) {} }}", body));
    if let StatementKind::Switch { scrutinee, .. } = &mut s.kind {
        scrutinee.expression_type = Some(ty);
    }
    s
}

fn cases_of(s: &Statement) -> &Vec<(Option<Expression>, String)> {
    match &s.kind {
        StatementKind::Switch { cases, .. } => cases,
        _ => panic!("expected a switch"),
    }
}

fn const_of(e: &Option<Expression>) -> Option<&Const> {
    match e {
        Some(Expression { kind: ExpressionKind::Constant(c), .. }) => Some(c),
        _ => None,
    }
}

fn here() -> Span {
    Span { line_number: 1, col: 0 }
}

fn has_for(s: &Statement) -> bool {
    match &s.kind {
        StatementKind::For { .. } => true,
        StatementKind::Compound(b) => b.items.iter().any(|i| matches!(i, BlockItem::S(s) if has_for(s))),
        StatementKind::While { body, .. } | StatementKind::DoWhile { body, .. } | StatementKind::Label(_, body) => has_for(body),
        StatementKind::If(_, y, n) => has_for(y) || n.as_ref().map_or(false, |n| has_for(n)),
        _ => false,
    }
}

#[test]
fn switch_collects_cases_in_order() {
    let mut s = typed_switch("{ case 1: return 1; case 2 + 3: return 2; default: return 0; }", Type::Int);
    let mut c = SwitchCollector;
    assert!(c.visit_statement(&mut s).is_ok());
    let cases = cases_of(&s);
    assert_eq!(cases.len(), 3);
    assert!(matches!(const_of(&cases[0].0), Some(Const::Int(1))));
    assert!(matches!(const_of(&cases[1].0), Some(Const::Int(5))));
    assert!(cases[2].0.is_none());
}

#[test]
fn switch_case_values_take_the_scrutinee_type() {
    let mut s = typed_switch("{ case 3: return 1; }", Type::ULong);
    let mut c = SwitchCollector;
    assert!(c.visit_statement(&mut s).is_ok());
    let cases = cases_of(&s);
    assert!(matches!(const_of(&cases[0].0), Some(Const::ULong(3))));
    assert!(matches!(cases[0].0.as_ref().unwrap().expression_type, Some(Type::ULong)));
}

#[test]
fn switch_case_values_are_truncated_to_an_int_scrutinee() {
    let mut s = typed_switch("{ case 4294967297l: return 1; }", Type::Int);
    let mut c = SwitchCollector;
    assert!(c.visit_statement(&mut s).is_ok());
    assert!(matches!(const_of(&cases_of(&s)[0].0), Some(Const::Int(1))));
}

#[test]
fn switch_finds_cases_in_nested_statements() {
    let mut s = typed_switch("{ if (1) { case 4: return 1; } while (0) default: ; }", Type::Int);
    let mut c = SwitchCollector;
    assert!(c.visit_statement(&mut s).is_ok());
    let cases = cases_of(&s);
    assert_eq!(cases.len(), 2);
    assert!(matches!(const_of(&cases[0].0), Some(Const::Int(4))));
    assert!(cases[1].0.is_none());
}

#[test]
fn switch_refuses_a_duplicate_case() {
    let mut s = typed_switch("{ case 1: return 1; case 2 - 1: return 2; }", Type::Int);
    let mut c = SwitchCollector;
    assert!(matches!(c.visit_statement(&mut s), Err(SemanticError::DuplicateCase(_))));
}

#[test]
fn switch_refuses_a_duplicate_default() {
    let mut s = typed_switch("{ default: return 1; default: return 2; }", Type::Int);
    let mut c = SwitchCollector;
    assert!(matches!(c.visit_statement(&mut s), Err(SemanticError::DuplicateDefault(_))));
}

#[test]
fn switch_refuses_a_non_constant_case() {
    let mut s = typed_switch("{ case x: return 1; }", Type::Int);
    let mut c = SwitchCollector;
    assert!(matches!(c.visit_statement(&mut s), Err(SemanticError::NonConstantCase(_))));
}

#[test]
fn switch_refuses_a_declaration_right_after_a_case() {
    let mut s = typed_switch("{ case 1: int y = 2; }", Type::Int);
    let mut c = SwitchCollector;
    assert!(matches!(c.visit_statement(&mut s), Err(SemanticError::DecInCase(_))));
}

#[test]
fn switch_pass_runs_over_every_function() {
    let mut program = parse("int f(void) { return 0; } int main(void) { switch (1) { case 1: case 1: ; } }");
    if let Decl::FuncDecl(f) = &mut program.declarations[1] {
        if let Some(BlockItem::S(s)) = f.body.as_mut().unwrap().items.first_mut() {
            if let StatementKind::Switch { scrutinee, .. } = &mut s.kind {
                scrutinee.expression_type = Some(Type::Int);
            }
        }
    }
    assert!(matches!(switch_collection_pass(&mut program), Err(SemanticError::DuplicateCase(_))));
}

#[test]
fn continue_of_the_target_loop_becomes_a_jump() {
    let mut s = Statement::new(StatementKind::Continue("loop.1".to_string()), here());
    let mut r = ContRewrite { tgt_loop_lab: "loop.1".to_string(), new_goto_lab: "loop.1_post".to_string() };
    assert!(r.visit_statement(&mut s).is_ok());
    assert!(matches!(&s.kind, StatementKind::Goto(l) if l == "loop.1_post"));

    let mut other = Statement::new(StatementKind::Continue("loop.2".to_string()), here());
    assert!(r.visit_statement(&mut other).is_ok());
    assert!(matches!(&other.kind, StatementKind::Continue(l) if l == "loop.2"));
}

#[test]
fn for_loop_becomes_a_block_with_a_while_loop() {
    let mut s = first_statement("int main(void) { for (int i = 0; i < 3; i = i + 1) { continue; } }");
    let mut d = ForDesugarer;
    assert!(d.visit_statement(&mut s).is_ok());
    let items = match &s.kind {
        StatementKind::Compound(b) => &b.items,
        _ => panic!("expected a block"),
    };
    assert_eq!(items.len(), 2);
    assert!(matches!(&items[0], BlockItem::D(Decl::VarDecl(v)) if v.identifier == "i"));
    let (cond, body) = match &items[1] {
        BlockItem::S(Statement { kind: StatementKind::While { cond, body, .. }, .. }) => (cond, body),
        _ => panic!("expected a while loop"),
    };
    assert!(matches!(cond.kind, ExpressionKind::Binary(..)));
    let inner = match &body.kind {
        StatementKind::Compound(b) => &b.items,
        _ => panic!("expected a block"),
    };
    assert_eq!(inner.len(), 2);
    match &inner[0] {
        BlockItem::S(Statement { kind: StatementKind::Compound(b), .. }) => {
            assert!(matches!(&b.items[0], BlockItem::S(Statement { kind: StatementKind::Goto(l), .. }) if l == "_post"));
        },
        _ => panic!("expected the old body"),
    }
    match &inner[1] {
        BlockItem::S(Statement { kind: StatementKind::Label(l, post), .. }) => {
            assert_eq!(l, "_post");
            assert!(matches!(post.kind, StatementKind::Expression(Expression { kind: ExpressionKind::Assignment(..), .. })));
        },
        _ => panic!("expected the labelled increment"),
    }
}

#[test]
fn empty_for_loop_gets_a_constant_condition() {
    let mut s = first_statement("int main(void) { for (;;) ; }");
    let mut d = ForDesugarer;
    assert!(d.visit_statement(&mut s).is_ok());
    let items = match &s.kind {
        StatementKind::Compound(b) => &b.items,
        _ => panic!("expected a block"),
    };
    assert_eq!(items.len(), 1);
    match &items[0] {
        BlockItem::S(Statement { kind: StatementKind::While { cond, body, .. }, .. }) => {
            assert!(matches!(cond.kind, ExpressionKind::Constant(Const::Int(1))));
            match &body.kind {
                StatementKind::Compound(b) => {
                    assert!(matches!(&b.items[0], BlockItem::S(Statement { kind: StatementKind::Null, .. })));
                    assert!(matches!(&b.items[1], BlockItem::S(Statement { kind: StatementKind::Label(_, p), .. }) if matches!(p.kind, StatementKind::Null)));
                },
                _ => panic!("expected a block"),
            }
        },
        _ => panic!("expected a while loop"),
    }
}

#[test]
fn for_pass_leaves_no_for_loop() {
    let mut program = parse("int main(void) { int x = 0; for (x = 1; x < 5; x = x + 1) for (;;) ; return x; }");
    assert!(for_desugaring_pass(&mut program).is_ok());
    match &program.declarations[0] {
        Decl::FuncDecl(f) => {
            let items = &f.body.as_ref().unwrap().items;
            assert_eq!(items.len(), 3);
            assert!(!items.iter().any(|i| matches!(i, BlockItem::S(s) if has_for(s))));
        },
        _ => panic!("expected a function"),
    }
}

fn checked(src: &str) -> (Program, SymbolTable, Result<(), SemanticError>) {
    let mut program = parse(src);
    let mut symbols = SymbolTable::new();
    let r = type_checking_pass(&mut program, &mut symbols);
    (program, symbols, r)
}

#[test]
fn type_check_walks_nested_statements() {
    let (program, symbols, r) = checked("int main(void) { int x = 1; if (x) { long y = x; while (y) y = y - 1; } return x; }");
    assert!(r.is_ok());
    assert!(matches!(symbols.get(&"y".to_string()), Some(s) if matches!(s.datatype, Type::Long) && matches!(s.attrs, IdentAttrs::LocalAttr)));
    let body = match &program.declarations[0] {
        Decl::FuncDecl(f) => &f.body.as_ref().unwrap().items,
        _ => panic!("expected a function"),
    };
    let inner = match &body[1] {
        BlockItem::S(Statement { kind: StatementKind::If(c, y, _), .. }) => {
            assert!(matches!(c.expression_type, Some(Type::Int)));
            match &y.kind {
                StatementKind::Compound(b) => &b.items,
                _ => panic!("expected a block"),
            }
        },
        _ => panic!("expected an if statement"),
    };
    match &inner[0] {
        BlockItem::D(Decl::VarDecl(v)) => {
            let init = v.init.as_ref().unwrap();
            assert!(matches!(&init.kind, ExpressionKind::Var(n) if n == "x"));
            assert!(matches!(init.expression_type, Some(Type::Int)));
        },
        _ => panic!("expected a declaration"),
    }
}

#[test]
fn type_check_leaves_an_undeclared_name_untyped() {
    let (program, _, r) = checked("int main(void) { if (1) { return z; } return 0; }");
    assert!(r.is_ok());
    match &program.declarations[0] {
        Decl::FuncDecl(f) => match &f.body.as_ref().unwrap().items[0] {
            BlockItem::S(Statement { kind: StatementKind::If(_, y, _), .. }) => match &y.kind {
                StatementKind::Compound(b) => match &b.items[0] {
                    BlockItem::S(Statement { kind: StatementKind::Return(e), .. }) => {
                        assert!(matches!(&e.kind, ExpressionKind::Var(n) if n == "z"));
                        assert!(e.expression_type.is_none());
                    },
                    _ => panic!("expected a return"),
                },
                _ => panic!("expected a block"),
            },
            _ => panic!("expected an if statement"),
        },
        _ => panic!("expected a function"),
    }
}

#[test]
fn type_check_cannot_run_where_an_undeclared_name_is_an_operand() {
    let mut program = parse("int main(void) { return z + 1; }");
    let mut symbols = SymbolTable::new();
    assert!(try_type_checking_pass(&mut program, &mut symbols).is_none());
}

#[test]
fn type_check_records_a_for_loop_variable() {
    let (_, symbols, r) = checked("int main(void) { for (int i = 0; i < 3; i = i + 1) ; return 0; }");
    assert!(r.is_ok());
    assert!(matches!(symbols.get(&"i".to_string()), Some(s) if matches!(s.attrs, IdentAttrs::LocalAttr)));
}

#[test]
fn type_check_records_a_local_static() {
    let (_, symbols, r) = checked("int main(void) { static int s = 3; return s; }");
    assert!(r.is_ok());
    match symbols.get(&"s".to_string()) {
        Some(sym) => assert!(matches!(
            sym.attrs,
            IdentAttrs::StaticAttr { init: InitialValue::Initial(StaticInit::IntInit(3)), global: false }
        )),
        None => panic!("s is not recorded"),
    }
}

#[test]
fn type_check_refuses_an_initialized_local_extern() {
    let (_, _, r) = checked("int main(void) { extern int e = 3; return 0; }");
    assert!(matches!(r, Err(SemanticError::InitializerOnLocalExtern(n, _)) if n == "e"));
}

#[test]
fn type_check_stops_at_the_first_error() {
    let (_, symbols, r) = checked("int x = 1; int main(void) { return x(); } int later = 4;");
    assert!(matches!(r, Err(SemanticError::VarCalledAsFunc(..))));
    assert!(symbols.get(&"later".to_string()).is_none());
}

#[test]
fn desugaring_twice_changes_nothing_more() {
    let mut s = first_statement("int main(void) { for (int i = 0; i < 3; i = i + 1) { if (i) continue; } }");
    let mut d = ForDesugarer;
    assert!(d.visit_statement(&mut s).is_ok());
    let once = format!("{:?}", s);
    assert!(d.visit_statement(&mut s).is_ok());
    assert_eq!(format!("{:?}", s), once);
}

fn expr_fully_typed(e: &Expression) -> bool {
    e.expression_type.is_some()
        && match &e.kind {
            ExpressionKind::Cast(_, i)
            | ExpressionKind::Unary(_, i)
            | ExpressionKind::PrefixIncrement(i)
            | ExpressionKind::PostfixIncrement(i)
            | ExpressionKind::PrefixDecrement(i)
            | ExpressionKind::PostfixDecrement(i) => expr_fully_typed(i),
            ExpressionKind::Assignment(l, r) | ExpressionKind::Binary(_, l, r) => expr_fully_typed(l) && expr_fully_typed(r),
            ExpressionKind::Conditional(c, a, b) => expr_fully_typed(c) && expr_fully_typed(a) && expr_fully_typed(b),
            ExpressionKind::FunctionCall(_, args) => args.iter().all(expr_fully_typed),
            _ => true,
        }
}

fn stmt_fully_typed(s: &Statement) -> bool {
    match &s.kind {
        StatementKind::Return(e) | StatementKind::Expression(e) => expr_fully_typed(e),
        StatementKind::If(c, y, n) => expr_fully_typed(c) && stmt_fully_typed(y) && n.as_ref().map_or(true, |n| stmt_fully_typed(n)),
        StatementKind::Compound(b) => b.items.iter().all(|i| match i {
            BlockItem::S(s) => stmt_fully_typed(s),
            BlockItem::D(Decl::VarDecl(v)) => v.init.as_ref().map_or(true, expr_fully_typed),
            _ => true,
        }),
        StatementKind::While { cond, body, .. } | StatementKind::DoWhile { body, cond, .. } => {
            expr_fully_typed(cond) && stmt_fully_typed(body)
        },
        _ => true,
    }
}

#[test]
fn an_accepted_program_is_typed_at_every_node() {
    let src = "long f(long a, int b); int main(void) { int x = 1; double d = 2.5; \
               if (x < 3) { x = x + (int) d; } while (x) x = x - 1; return f(x, x) > 0 ? x : -x; }";
    let (program, _, r) = checked(src);
    assert!(r.is_ok());
    match &program.declarations[1] {
        Decl::FuncDecl(f) => {
            for item in f.body.as_ref().unwrap().items.iter() {
                match item {
                    BlockItem::S(s) => assert!(stmt_fully_typed(s)),
                    BlockItem::D(Decl::VarDecl(v)) => assert!(v.init.as_ref().map_or(true, expr_fully_typed)),
                    _ => {},
                }
            }
        },
        _ => panic!("expected a function"),
    }
}

#[test]
fn a_checked_switch_is_ready_for_collection() {
    let src = "int main(void) { int x = 2; switch (x) { case 1: return 5; case 1 + 1: return 7; default: return 0; } }";
    let (mut program, symbols, r) = checked(src);
    assert!(r.is_ok());
    assert!(switch_ready(&program));
    assert!(switch_collection_pass(&mut program).is_ok());
    assert!(poise_ready(&program, &symbols));
}

#[test]
fn an_unchecked_switch_is_not_ready_for_collection() {
    let program = parse("int main(void) { switch (1) { case 1: return 5; } }");
    assert!(!switch_ready(&program));
}

#[test]
fn a_cast_node_carries_the_type_it_casts_to() {
    let (program, _, r) = checked("int main(void) { long l = 3; return (int) l; }");
    assert!(r.is_ok());
    match &program.declarations[0] {
        Decl::FuncDecl(f) => match &f.body.as_ref().unwrap().items[1] {
            BlockItem::S(Statement { kind: StatementKind::Return(e), .. }) => {
                assert!(matches!(e.kind, ExpressionKind::Cast(Type::Int, _)));
                assert!(matches!(e.expression_type, Some(Type::Int)));
            },
            _ => panic!("expected a return"),
        },
        _ => panic!("expected a function"),
    }
}
