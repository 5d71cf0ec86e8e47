use poisecc::lexer::Span;
use poisecc::parser::ast::{BinaryOp, Const, Expression, ExpressionKind, UnaryOp};
use poisecc::semanal::type_checker::TypeChecker;
use poisecc::semanal::SemanticError;
use poisecc::types::{IdentAttrs, Symbol, SymbolTable, Type};

/// Runs the type checker on one expression with the given symbol table.
fn check(expr: &mut Expression, symbols: &mut SymbolTable) -> Result<(), SemanticError> {
    let table = std::mem::replace(symbols, SymbolTable::new());
    let checker = TypeChecker::new(table, 1);
    let r = checker.type_expression(expr);
    *symbols = checker.symbols;
    r
}

fn check_empty(expr: &mut Expression) -> Result<(), SemanticError> {
    let mut symbols = SymbolTable::new();
    check(expr, &mut symbols)
}

fn symbols_with(vars: &[(&str, Type)]) -> SymbolTable {
    let mut t = SymbolTable::new();
    for (name, ty) in vars {
        t.insert(
            name.to_string(),
            Symbol { ident: name.to_string(), datatype: ty.clone(), attrs: IdentAttrs::LocalAttr },
        );
    }
    t
}

fn symbols_with_func(name: &str, params: Vec<Type>, ret: Type) -> SymbolTable {
    let mut t = SymbolTable::new();
    let func_type = Type::FuncType { params: params.into_iter().map(Box::new).collect(), ret: Box::new(ret) };
    t.insert(
        name.to_string(),
        Symbol {
            ident: name.to_string(),
            datatype: func_type,
            attrs: IdentAttrs::FuncAttr { defined: true, global: true },
        },
    );
    t
}

fn dummy_span() -> Span {
    Span { line_number: 1, col: 1 }
}

fn from_kind(kind: ExpressionKind) -> Expression {
    Expression { kind, expression_type: None, span: dummy_span() }
}

fn int_const(v: i32) -> Expression {
    from_kind(ExpressionKind::Constant(Const::Int(v)))
}

fn long_const(v: i64) -> Expression {
    from_kind(ExpressionKind::Constant(Const::Long(v)))
}

fn uint_const(v: u32) -> Expression {
    from_kind(ExpressionKind::Constant(Const::UInt(v)))
}

fn ulong_const(v: u64) -> Expression {
    from_kind(ExpressionKind::Constant(Const::ULong(v)))
}

fn double_const(v: f64) -> Expression {
    from_kind(ExpressionKind::Constant(Const::Double(format!("{:?}", v))))
}

fn var(name: &str) -> Expression {
    from_kind(ExpressionKind::Var(name.to_string()))
}

fn cast(ty: Type, inner: Expression) -> Expression {
    from_kind(ExpressionKind::Cast(ty, Box::new(inner)))
}

fn unary(op: UnaryOp, inner: Expression) -> Expression {
    from_kind(ExpressionKind::Unary(op, Box::new(inner)))
}

fn binop(op: BinaryOp, lhs: Expression, rhs: Expression) -> Expression {
    from_kind(ExpressionKind::Binary(op, Box::new(lhs), Box::new(rhs)))
}

fn assign(lhs: Expression, rhs: Expression) -> Expression {
    from_kind(ExpressionKind::Assignment(Box::new(lhs), Box::new(rhs)))
}

fn call(name: &str, args: Vec<Expression>) -> Expression {
    from_kind(ExpressionKind::FunctionCall(name.to_string(), args))
}

fn conditional(cond: Expression, then_e: Expression, else_e: Expression) -> Expression {
    from_kind(ExpressionKind::Conditional(Box::new(cond), Box::new(then_e), Box::new(else_e)))
}

fn prefix_inc(inner: Expression) -> Expression {
    from_kind(ExpressionKind::PrefixIncrement(Box::new(inner)))
}

fn postfix_dec(inner: Expression) -> Expression {
    from_kind(ExpressionKind::PostfixDecrement(Box::new(inner)))
}

/// Asserts that `e` is a cast to `expected_ty` and returns what is under it.
fn expect_cast_to<'a>(e: &'a Expression, expected_ty: &Type) -> &'a Expression {
    match &e.kind {
        ExpressionKind::Cast(ty, inner) => {
            assert_eq!(ty, expected_ty, "expected Cast to {:?}, got Cast to {:?}", expected_ty, ty);
            assert_eq!(e.expression_type.as_ref(), Some(expected_ty), "Cast node's expression_type should equal target type");
            inner
        },
        other => panic!("expected Cast, got {:?}", other),
    }
}

fn expect_cast_inner(e: &Expression) -> &Expression {
    match &e.kind {
        ExpressionKind::Cast(_, inner) => inner,
        other => panic!("expected Cast, got {:?}", other),
    }
}

fn expect_binary_operands(e: &Expression) -> (&Expression, &Expression) {
    match &e.kind {
        ExpressionKind::Binary(_, lhs, rhs) => (lhs, rhs),
        other => panic!("expected Binary, got {:?}", other),
    }
}

fn expect_assignment_operands(e: &Expression) -> (&Expression, &Expression) {
    match &e.kind {
        ExpressionKind::Assignment(lhs, rhs) => (lhs, rhs),
        other => panic!("expected Assignment, got {:?}", other),
    }
}

fn expect_call_args(e: &Expression) -> &[Expression] {
    match &e.kind {
        ExpressionKind::FunctionCall(_, args) => args,
        other => panic!("expected FunctionCall, got {:?}", other),
    }
}

fn expect_conditional_parts(e: &Expression) -> (&Expression, &Expression, &Expression) {
    match &e.kind {
        ExpressionKind::Conditional(c, t, e) => (c, t, e),
        other => panic!("expected Conditional, got {:?}", other),
    }
}

#[test]
fn constant_int_annotates_as_int() {
    let mut e = int_const(5);
    check_empty(&mut e).unwrap();
    assert_eq!(e.expression_type, Some(Type::Int));
}

#[test]
fn constant_long_annotates_as_long() {
    let mut e = long_const(5);
    check_empty(&mut e).unwrap();
    assert_eq!(e.expression_type, Some(Type::Long));
}

#[test]
fn constant_uint_annotates_as_uint() {
    let mut e = uint_const(5);
    check_empty(&mut e).unwrap();
    assert_eq!(e.expression_type, Some(Type::UInt));
}

#[test]
fn constant_ulong_annotates_as_ulong() {
    let mut e = ulong_const(5);
    check_empty(&mut e).unwrap();
    assert_eq!(e.expression_type, Some(Type::ULong));
}

#[test]
fn constant_double_annotates_as_double() {
    let mut e = double_const(3.14);
    check_empty(&mut e).unwrap();
    assert_eq!(e.expression_type, Some(Type::Double));
}

#[test]
fn var_lookup_annotates_with_symbol_type() {
    let mut symbols = symbols_with(&[("x", Type::Long)]);
    let mut e = var("x");
    check(&mut e, &mut symbols).unwrap();
    assert_eq!(e.expression_type, Some(Type::Long));
}

#[test]
fn var_referring_to_function_is_error() {
    let mut symbols = symbols_with_func("f", vec![Type::Int], Type::Int);
    let mut e = var("f");
    let err = check(&mut e, &mut symbols).unwrap_err();
    assert!(matches!(err, SemanticError::FuncUsedAsVar(name, _) if name == "f"));
}

#[test]
fn cast_annotates_with_target_type() {
    let mut e = cast(Type::Long, int_const(5));
    check_empty(&mut e).unwrap();
    assert_eq!(e.expression_type, Some(Type::Long));
}

#[test]
fn cast_recursively_annotates_inner() {
    let mut e = cast(Type::Long, int_const(5));
    check_empty(&mut e).unwrap();
    let inner = expect_cast_inner(&e);
    assert_eq!(inner.expression_type, Some(Type::Int));
}

#[test]
fn unary_negate_preserves_int_type() {
    let mut e = unary(UnaryOp::Negate, int_const(5));
    check_empty(&mut e).unwrap();
    assert_eq!(e.expression_type, Some(Type::Int));
}

#[test]
fn unary_negate_preserves_double_type() {
    let mut e = unary(UnaryOp::Negate, double_const(3.14));
    check_empty(&mut e).unwrap();
    assert_eq!(e.expression_type, Some(Type::Double));
}

#[test]
fn unary_complement_preserves_int_type() {
    let mut e = unary(UnaryOp::Complement, int_const(5));
    check_empty(&mut e).unwrap();
    assert_eq!(e.expression_type, Some(Type::Int));
}

#[test]
fn unary_complement_on_double_is_error() {
    let mut e = unary(UnaryOp::Complement, double_const(3.14));
    let err = check_empty(&mut e).unwrap_err();
    assert!(matches!(err, SemanticError::ComplementFloat(_)));
}

#[test]
fn unary_not_returns_int_for_int_operand() {
    let mut e = unary(UnaryOp::Not, int_const(5));
    check_empty(&mut e).unwrap();
    assert_eq!(e.expression_type, Some(Type::Int));
}

#[test]
fn unary_not_returns_int_for_double_operand() {
    let mut e = unary(UnaryOp::Not, double_const(3.14));
    check_empty(&mut e).unwrap();
    assert_eq!(e.expression_type, Some(Type::Int));
}

#[test]
fn binary_int_plus_int_is_int_no_casts() {
    let mut e = binop(
        BinaryOp::Add,
        int_const(1),
        int_const(2),
    );
    check_empty(&mut e).unwrap();
    assert_eq!(e.expression_type, Some(Type::Int));
    let (lhs, rhs) = expect_binary_operands(&e);
    assert!(!matches!(lhs.kind, ExpressionKind::Cast(..)));
    assert!(!matches!(rhs.kind, ExpressionKind::Cast(..)));
}

#[test]
fn binary_double_plus_double_is_double_no_casts() {
    let mut e = binop(
        BinaryOp::Add,
        double_const(1.0),
        double_const(2.0),
    );
    check_empty(&mut e).unwrap();
    assert_eq!(e.expression_type, Some(Type::Double));
    let (lhs, rhs) = expect_binary_operands(&e);
    assert!(!matches!(lhs.kind, ExpressionKind::Cast(..)));
    assert!(!matches!(rhs.kind, ExpressionKind::Cast(..)));
}

#[test]
fn binary_int_plus_long_promotes_int_to_long() {
    let mut e = binop(
        BinaryOp::Add,
        int_const(1),
        long_const(2),
    );
    check_empty(&mut e).unwrap();
    assert_eq!(e.expression_type, Some(Type::Long));
    let (lhs, rhs) = expect_binary_operands(&e);
    // lhs should be wrapped in a Cast to Long
    let inner = expect_cast_to(&lhs, &Type::Long);
    assert!(matches!(inner.kind, ExpressionKind::Constant(Const::Int(1))));
    // rhs should be untouched
    assert!(!matches!(rhs.kind, ExpressionKind::Cast(..)));
    assert_eq!(rhs.expression_type, Some(Type::Long));
}

#[test]
fn binary_int_plus_double_promotes_int_to_double() {
    let mut e = binop(
        BinaryOp::Add,
        int_const(1),
        double_const(2.0),
    );
    check_empty(&mut e).unwrap();
    assert_eq!(e.expression_type, Some(Type::Double));
    let (lhs, rhs) = expect_binary_operands(&e);
    expect_cast_to(&lhs, &Type::Double);
    assert!(!matches!(rhs.kind, ExpressionKind::Cast(..)));
}

#[test]
fn binary_int_plus_uint_same_size_uses_unsigned() {
    // get_common_type rule: same size, one signed and one unsigned -> unsigned wins.
    let mut e = binop(
        BinaryOp::Add,
        int_const(1),
        uint_const(2),
    );
    check_empty(&mut e).unwrap();
    assert_eq!(e.expression_type, Some(Type::UInt));
    let (lhs, _rhs) = expect_binary_operands(&e);
    expect_cast_to(&lhs, &Type::UInt);
}

#[test]
fn comparison_returns_int_regardless_of_operand_types() {
    let mut e = binop(
        BinaryOp::LessThan,
        double_const(1.0),
        double_const(2.0),
    );
    check_empty(&mut e).unwrap();
    assert_eq!(e.expression_type, Some(Type::Int));
}

#[test]
fn comparison_promotes_operands_to_common_type() {
    let mut e = binop(
        BinaryOp::LessThan,
        int_const(1),
        long_const(2),
    );
    check_empty(&mut e).unwrap();
    assert_eq!(e.expression_type, Some(Type::Int));
    let (lhs, _rhs) = expect_binary_operands(&e);
    expect_cast_to(&lhs, &Type::Long);
}

#[test]
fn logical_and_returns_int() {
    let mut e = binop(
        BinaryOp::LogicalAnd,
        int_const(1),
        long_const(2),
    );
    check_empty(&mut e).unwrap();
    assert_eq!(e.expression_type, Some(Type::Int));
}

#[test]
fn logical_or_does_not_promote_operands() {
    let mut e = binop(
        BinaryOp::LogicalOr,
        int_const(1),
        long_const(2),
    );
    check_empty(&mut e).unwrap();
    let (lhs, rhs) = expect_binary_operands(&e);
    // Neither operand should have been wrapped in a cast.
    assert!(!matches!(lhs.kind, ExpressionKind::Cast(..)));
    assert!(!matches!(rhs.kind, ExpressionKind::Cast(..)));
    assert_eq!(lhs.expression_type, Some(Type::Int));
    assert_eq!(rhs.expression_type, Some(Type::Long));
}

#[test]
fn left_shift_result_type_is_lhs_type() {
    let mut e = binop(
        BinaryOp::LeftShift,
        long_const(1),
        int_const(2),
    );
    check_empty(&mut e).unwrap();
    assert_eq!(e.expression_type, Some(Type::Long));
    let (lhs, rhs) = expect_binary_operands(&e);
    assert!(!matches!(lhs.kind, ExpressionKind::Cast(..)));
    assert!(!matches!(rhs.kind, ExpressionKind::Cast(..)));
}

#[test]
fn right_shift_result_type_is_lhs_type() {
    let mut e = binop(
        BinaryOp::RightShift,
        int_const(1),
        long_const(2),
    );
    check_empty(&mut e).unwrap();
    assert_eq!(e.expression_type, Some(Type::Int));
}

#[test]
fn remainder_on_doubles_is_error() {
    let mut e = binop(
        BinaryOp::Remainder,
        double_const(1.0),
        double_const(2.0),
    );
    let err = check_empty(&mut e).unwrap_err();
    assert!(matches!(err, SemanticError::RemainderFloat(_)));
}

#[test]
fn remainder_on_ints_is_ok() {
    let mut e = binop(
        BinaryOp::Remainder,
        int_const(5),
        int_const(3),
    );
    check_empty(&mut e).unwrap();
    assert_eq!(e.expression_type, Some(Type::Int));
}

#[test]
fn assignment_result_type_is_lhs_type() {
    let mut symbols = symbols_with(&[("x", Type::Long)]);
    let mut e = assign(var("x"), int_const(5));
    check(&mut e, &mut symbols).unwrap();
    assert_eq!(e.expression_type, Some(Type::Long));
}

#[test]
fn assignment_converts_rhs_to_lhs_type() {
    let mut symbols = symbols_with(&[("x", Type::Long)]);
    let mut e = assign(var("x"), int_const(5));
    check(&mut e, &mut symbols).unwrap();
    let (_lhs, rhs) = expect_assignment_operands(&e);
    expect_cast_to(&rhs, &Type::Long);
}

#[test]
fn assignment_to_function_call_is_error() {
    let mut symbols = symbols_with_func("f", vec![], Type::Int);
    let mut e = assign(
        call("f", vec![]),
        int_const(5),
    );
    let err = check(&mut e, &mut symbols).unwrap_err();
    assert!(matches!(err, SemanticError::FuncUsedAsVar(name, _) if name == "f"));
}

#[test]
fn function_call_result_type_is_return_type() {
    let mut symbols = symbols_with_func("f", vec![Type::Int], Type::Long);
    let mut e = call("f", vec![int_const(5)]);
    check(&mut e, &mut symbols).unwrap();
    assert_eq!(e.expression_type, Some(Type::Long));
}

#[test]
fn function_call_converts_args_to_param_types() {
    let mut symbols = symbols_with_func("f", vec![Type::Long], Type::Int);
    let mut e = call("f", vec![int_const(5)]);
    check(&mut e, &mut symbols).unwrap();
    let args = expect_call_args(&e);
    expect_cast_to(&args[0], &Type::Long);
}

#[test]
fn function_call_with_wrong_arg_count_is_error() {
    let mut symbols = symbols_with_func("f", vec![Type::Int, Type::Int], Type::Int);
    let mut e = call("f", vec![int_const(5)]);
    let err = check(&mut e, &mut symbols).unwrap_err();
    assert!(matches!(
        err,
        SemanticError::FuncCalledWithWrongNumArgs(name, _) if name == "f"
    ));
}

#[test]
fn calling_a_variable_is_error() {
    let mut symbols = symbols_with(&[("x", Type::Int)]);
    let mut e = call("x", vec![]);
    let err = check(&mut e, &mut symbols).unwrap_err();
    assert!(matches!(err, SemanticError::VarCalledAsFunc(name, _) if name == "x"));
}

#[test]
fn conditional_branches_promoted_to_common_type() {
    let mut e = conditional(
        int_const(1),
        int_const(2),
        long_const(3),
    );
    check_empty(&mut e).unwrap();
    assert_eq!(e.expression_type, Some(Type::Long));
    let (_cond, then_e, else_e) = expect_conditional_parts(&e);
    expect_cast_to(&then_e, &Type::Long);
    assert!(!matches!(else_e.kind, ExpressionKind::Cast(..)));
}

#[test]
fn conditional_condition_does_not_affect_result_type() {
    // condition is double, branches are both int -> result is int
    let mut e = conditional(
        double_const(1.0),
        int_const(2),
        int_const(3),
    );
    check_empty(&mut e).unwrap();
    assert_eq!(e.expression_type, Some(Type::Int));
}

#[test]
fn prefix_increment_preserves_operand_type() {
    let mut symbols = symbols_with(&[("x", Type::Long)]);
    let mut e = prefix_inc(var("x"));
    check(&mut e, &mut symbols).unwrap();
    assert_eq!(e.expression_type, Some(Type::Long));
}

#[test]
fn postfix_decrement_preserves_operand_type() {
    let mut symbols = symbols_with(&[("x", Type::UInt)]);
    let mut e = postfix_dec(var("x"));
    check(&mut e, &mut symbols).unwrap();
    assert_eq!(e.expression_type, Some(Type::UInt));
}

#[test]
fn nested_binary_promotes_at_inner_level() {
    // (int + long) + int
    //   inner result is Long, outer Long + Int promotes the outer int.
    let mut e = binop(
        BinaryOp::Add,
        binop(
            BinaryOp::Add,
            int_const(1),
            long_const(2),
        ),
        int_const(3),
    );
    check_empty(&mut e).unwrap();
    assert_eq!(e.expression_type, Some(Type::Long));

    let (outer_lhs, outer_rhs) = expect_binary_operands(&e);

    // Outer rhs (the standalone int 3) should have been cast to Long.
    expect_cast_to(&outer_rhs, &Type::Long);

    // Outer lhs is the inner binary; it should be annotated as Long, and
    // *not* wrapped in a cast (since its result is already Long).
    assert_eq!(outer_lhs.expression_type, Some(Type::Long));
    assert!(!matches!(outer_lhs.kind, ExpressionKind::Cast(..)));

    // Drill into the inner binary and verify its int operand was cast to Long.
    let (inner_lhs, inner_rhs) = expect_binary_operands(&outer_lhs);
    expect_cast_to(&inner_lhs, &Type::Long);
    assert_eq!(inner_rhs.expression_type, Some(Type::Long));
    assert!(!matches!(inner_rhs.kind, ExpressionKind::Cast(..)));
}

#[test]
fn nested_binary_promotes_through_two_levels() {
    // int + (int + double)
    //   inner result is Double, outer Int + Double promotes the outer int.
    let mut e = binop(
        BinaryOp::Add,
        int_const(1),
        binop(
            BinaryOp::Add,
            int_const(2),
            double_const(3.0),
        ),
    );
    check_empty(&mut e).unwrap();
    assert_eq!(e.expression_type, Some(Type::Double));

    let (outer_lhs, outer_rhs) = expect_binary_operands(&e);
    expect_cast_to(&outer_lhs, &Type::Double);
    assert_eq!(outer_rhs.expression_type, Some(Type::Double));

    let (inner_lhs, inner_rhs) = expect_binary_operands(&outer_rhs);
    expect_cast_to(&inner_lhs, &Type::Double);
    assert!(!matches!(inner_rhs.kind, ExpressionKind::Cast(..)));
}

#[test]
fn comparison_inside_logical_does_not_promote_logical_operands() {
    // (int < long) && (double < double)
    //   Each comparison returns Int and promotes its own operands.
    //   The outer && returns Int and does NOT promote either side
    //   (both are already Int from the comparisons).
    let mut e = binop(
        BinaryOp::LogicalAnd,
        binop(
            BinaryOp::LessThan,
            int_const(1),
            long_const(2),
        ),
        binop(
            BinaryOp::LessThan,
            double_const(1.0),
            double_const(2.0),
        ),
    );
    check_empty(&mut e).unwrap();
    assert_eq!(e.expression_type, Some(Type::Int));

    let (lhs, rhs) = expect_binary_operands(&e);
    // Neither side of the && should be cast.
    assert!(!matches!(lhs.kind, ExpressionKind::Cast(..)));
    assert!(!matches!(rhs.kind, ExpressionKind::Cast(..)));
    assert_eq!(lhs.expression_type, Some(Type::Int));
    assert_eq!(rhs.expression_type, Some(Type::Int));

    // Inside the left comparison, the int operand was cast to Long.
    let (cmp_lhs, _) = expect_binary_operands(&lhs);
    expect_cast_to(&cmp_lhs, &Type::Long);
}

#[test]
fn function_call_arg_is_nested_binary() {
    // f(int + long), where f takes a Long.
    //   The inner binary's result is Long, so no cast should be inserted
    //   at the argument boundary — but the inner int operand should still
    //   be cast to Long.
    let mut symbols = symbols_with_func("f", vec![Type::Long], Type::Int);
    let mut e = call(
        "f",
        vec![binop(
            BinaryOp::Add,
            int_const(1),
            long_const(2),
        )],
    );
    check(&mut e, &mut symbols).unwrap();

    let args = expect_call_args(&e);
    assert_eq!(args[0].expression_type, Some(Type::Long));
    // No cast at the arg boundary — already Long.
    assert!(!matches!(args[0].kind, ExpressionKind::Cast(..)));

    // The inner binary's int operand was promoted.
    let (inner_lhs, _) = expect_binary_operands(&args[0]);
    expect_cast_to(&inner_lhs, &Type::Long);
}

#[test]
fn function_call_arg_needs_conversion_after_inner_promotion() {
    // f(int + int), where f takes a Long.
    //   The inner binary's result is Int, then the call site converts the
    //   whole arg to Long. So the arg should be a Cast(Long, Binary(...)).
    let mut symbols = symbols_with_func("f", vec![Type::Long], Type::Int);
    let mut e = call(
        "f",
        vec![binop(
            BinaryOp::Add,
            int_const(1),
            int_const(2),
        )],
    );
    check(&mut e, &mut symbols).unwrap();

    let args = expect_call_args(&e);
    let inner = expect_cast_to(&args[0], &Type::Long);
    // The thing inside the cast is the original binary, still annotated as Int.
    assert!(matches!(inner.kind, ExpressionKind::Binary(..)));
    assert_eq!(inner.expression_type, Some(Type::Int));
}

#[test]
fn assignment_with_nested_binary_rhs() {
    // x = (int + double), where x is Long.
    //   Inner binary promotes int to double, result is Double.
    //   Then the assignment converts the whole rhs from Double to Long.
    let mut symbols = symbols_with(&[("x", Type::Long)]);
    let mut e = assign(
        var("x"),
        binop(
            BinaryOp::Add,
            int_const(1),
            double_const(2.0),
        ),
    );
    check(&mut e, &mut symbols).unwrap();
    assert_eq!(e.expression_type, Some(Type::Long));

    let (_lhs, rhs) = expect_assignment_operands(&e);
    let inner = expect_cast_to(&rhs, &Type::Long);
    assert_eq!(inner.expression_type, Some(Type::Double));
    assert!(matches!(inner.kind, ExpressionKind::Binary(..)));
}

#[test]
fn conditional_with_nested_promotions() {
    // (cond) ? (int + int) : long
    //   Then-branch is Int, else-branch is Long.
    //   Common type is Long, so the then-branch (whole binary) is cast to Long.
    let mut e = conditional(
        int_const(1),
        binop(
            BinaryOp::Add,
            int_const(2),
            int_const(3),
        ),
        long_const(4),
    );
    check_empty(&mut e).unwrap();
    assert_eq!(e.expression_type, Some(Type::Long));

    let (_cond, then_e, else_e) = expect_conditional_parts(&e);
    let then_inner = expect_cast_to(&then_e, &Type::Long);
    assert!(matches!(then_inner.kind, ExpressionKind::Binary(..)));
    assert_eq!(then_inner.expression_type, Some(Type::Int));
    assert!(!matches!(else_e.kind, ExpressionKind::Cast(..)));
}

#[test]
fn deeply_nested_unary_preserves_type_through_levels() {
    // -(-(-int))
    //   All three negations preserve Int.
    let mut e = unary(
        UnaryOp::Negate,
        unary(
            UnaryOp::Negate,
            unary(UnaryOp::Negate, int_const(5)),
        ),
    );
    check_empty(&mut e).unwrap();
    assert_eq!(e.expression_type, Some(Type::Int));

    // Walk down and confirm each level is annotated.
    if let ExpressionKind::Unary(_, inner1) = &e.kind {
        assert_eq!(inner1.expression_type, Some(Type::Int));
        if let ExpressionKind::Unary(_, inner2) = &inner1.kind {
            assert_eq!(inner2.expression_type, Some(Type::Int));
            if let ExpressionKind::Unary(_, inner3) = &inner2.kind {
                assert_eq!(inner3.expression_type, Some(Type::Int));
            } else {
                panic!("expected innermost Unary");
            }
        } else {
            panic!("expected middle Unary");
        }
    } else {
        panic!("expected outer Unary");
    }
}

#[test]
fn not_of_comparison_returns_int() {
    // !(int < long)
    //   Comparison returns Int (with promotion inside), then ! returns Int.
    let mut e = unary(
        UnaryOp::Not,
        binop(
            BinaryOp::LessThan,
            int_const(1),
            long_const(2),
        ),
    );
    check_empty(&mut e).unwrap();
    assert_eq!(e.expression_type, Some(Type::Int));

    if let ExpressionKind::Unary(_, inner) = &e.kind {
        assert_eq!(inner.expression_type, Some(Type::Int));
        // The promotion inside the comparison still happened.
        let (cmp_lhs, _) = expect_binary_operands(&inner);
        expect_cast_to(&cmp_lhs, &Type::Long);
    } else {
        panic!("expected Unary");
    }
}

#[test]
fn function_call_with_multiple_args_each_converted_independently() {
    // f(int, double, int), where f takes (Long, Long, Long).
    //   Each arg gets converted to Long independently.
    let mut symbols =
        symbols_with_func("f", vec![Type::Long, Type::Long, Type::Long], Type::Int);
    let mut e = call(
        "f",
        vec![
            int_const(1),
            double_const(2.0),
            int_const(3),
        ],
    );
    check(&mut e, &mut symbols).unwrap();

    let args = expect_call_args(&e);
    expect_cast_to(&args[0], &Type::Long);
    expect_cast_to(&args[1], &Type::Long);
    expect_cast_to(&args[2], &Type::Long);
}

#[test]
fn cast_inside_binary_is_respected() {
    // (long)int + long
    //   The explicit cast makes the lhs Long, so no further promotion needed
    //   on either side.
    let mut e = binop(
        BinaryOp::Add,
        cast(Type::Long, int_const(1)),
        long_const(2),
    );
    check_empty(&mut e).unwrap();
    assert_eq!(e.expression_type, Some(Type::Long));

    let (lhs, rhs) = expect_binary_operands(&e);
    // lhs is the explicit Cast (annotated Long); should NOT be re-wrapped in
    // another cast by convert_type, since types already match.
    assert_eq!(lhs.expression_type, Some(Type::Long));
    // It should still be a Cast (the explicit one), not double-wrapped.
    if let ExpressionKind::Cast(_, inner) = &lhs.kind {
        // The inner is the int constant.
        assert!(matches!(inner.kind, ExpressionKind::Constant(Const::Int(1))));
    } else {
        panic!("expected explicit Cast to remain");
    }
    assert!(!matches!(rhs.kind, ExpressionKind::Cast(..)));
}
