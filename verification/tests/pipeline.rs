use poisecc::codegen::asm_ast::{
    AsmFunction, AsmInstruction, AsmProgram, AsmTopLevel, AsmType, BinaryOp, Operand, RegSize, Register,
};
use poisecc::codegen::ready::codegen_ready;
use poisecc::codegen::gen_program;
use poisecc::emit::{emit_program, emit_ready};
use poisecc::lexer::tokens::TokenType;
use poisecc::lexer::{LexerError, Token, Tokenizer};
use poisecc::namemap::NameMap;
use poisecc::parser::ast::{BlockItem, Const, Decl, ExpressionKind, Program, StatementKind};
use poisecc::parser::{ParseError, Parser};
use poisecc::poise::gen::gen_poise;
use poisecc::poise::ready::poise_ready;
use poisecc::poise::{PoiseBinaryOp, PoiseInstruction, PoiseProg, PoiseVal, TopLevelItem};
use poisecc::semanal::type_checker::type_checking_pass;
use poisecc::semanal::SemanticError;
use poisecc::types::{IdentAttrs, InitialValue, StaticInit, SymbolTable, Type};

fn lex(src: &str) -> Result<Vec<Token>, LexerError> {
    let mut t = Tokenizer::new(src.to_string());
    t.tokenize()
}

fn parse(src: &str) -> Result<Program, ParseError> {
    let mut p = Parser::new(lex(src).unwrap());
    p.parse_program()
}

/// Type-checks a program and returns the symbol table it builds.
fn check_program(program: &mut Program) -> Result<SymbolTable, SemanticError> {
    let mut symbols = SymbolTable::new();
    type_checking_pass(program, &mut symbols)?;
    Ok(symbols)
}

fn poise_of(src: &str) -> (PoiseProg, SymbolTable) {
    let mut program = parse(src).unwrap();
    let mut symbols = check_program(&mut program).unwrap();
    let prog = gen_poise(&program, &mut symbols);
    (prog, symbols)
}

fn is_var(v: &PoiseVal, n: &str) -> bool {
    matches!(v, PoiseVal::Variable(x) if x == n)
}

fn is_int(v: &PoiseVal, i: i32) -> bool {
    matches!(v, PoiseVal::Constant(Const::Int(x)) if *x == i)
}

#[test]
fn lexes_a_small_function() {
    let toks = lex("int main(void) { return 2; }").unwrap();
    let kinds: Vec<TokenType> = toks.into_iter().map(|t| t.token_type).collect();
    assert_eq!(kinds.len(), 10);
    assert!(matches!(kinds[0], TokenType::Int));
    assert!(matches!(&kinds[1], TokenType::Identifier(n) if n == "main"));
    assert!(matches!(kinds[2], TokenType::OpenParen));
    assert!(matches!(kinds[3], TokenType::Void));
    assert!(matches!(kinds[4], TokenType::CloseParen));
    assert!(matches!(kinds[5], TokenType::OpenBrace));
    assert!(matches!(kinds[6], TokenType::Return));
    assert!(matches!(kinds[7], TokenType::NumericConstant(_)));
    assert!(matches!(kinds[8], TokenType::Semicolon));
    assert!(matches!(kinds[9], TokenType::CloseBrace));
}

#[test]
fn lexer_refuses_an_unknown_character() {
    match lex("int x = @;") {
        Err(LexerError::InvalidCharacter(c, _)) => assert_eq!(c, '@'),
        other => panic!("expected an error, got {:?}", other.map(|v| v.len())),
    }
}

#[test]
fn parses_a_function_with_a_return() {
    let program = parse("int main(void) { return 2 + 3; }").unwrap();
    assert_eq!(program.declarations.len(), 1);
    match &program.declarations[0] {
        Decl::FuncDecl(f) => {
            assert_eq!(f.identifier, "main");
            assert!(f.params.is_empty());
            let body = f.body.as_ref().unwrap();
            assert_eq!(body.items.len(), 1);
            match &body.items[0] {
                BlockItem::S(s) => match &s.kind {
                    StatementKind::Return(e) => assert!(matches!(e.kind, ExpressionKind::Binary(..))),
                    _ => panic!("expected a return"),
                },
                _ => panic!("expected a statement"),
            }
        },
        _ => panic!("expected a function"),
    }
}

#[test]
fn parser_refuses_a_missing_semicolon() {
    assert!(parse("int main(void) { return 2 }").is_err());
}

#[test]
fn checker_records_functions_and_globals() {
    let mut program = parse("static int counter = 3; int main(void) { return counter; }").unwrap();
    let symbols = check_program(&mut program).unwrap();
    let c = symbols.get(&"counter".to_string()).unwrap();
    assert_eq!(c.datatype, Type::Int);
    assert_eq!(c.attrs, IdentAttrs::StaticAttr { init: InitialValue::Initial(StaticInit::IntInit(3)), global: false });
    let m = symbols.get(&"main".to_string()).unwrap();
    assert!(matches!(m.attrs, IdentAttrs::FuncAttr { defined: true, global: true }));
}

#[test]
fn checker_refuses_two_definitions() {
    let mut program = parse("int f(void) { return 1; } int f(void) { return 2; }").unwrap();
    match check_program(&mut program) {
        Err(SemanticError::DoubleDeclaration(n, _)) => assert_eq!(n, "f"),
        _ => panic!("expected a double declaration"),
    }
}

#[test]
fn checker_refuses_a_non_constant_global_initializer() {
    let mut program = parse("int a = 1; int b = a;").unwrap();
    match check_program(&mut program) {
        Err(SemanticError::NonConstantInitializer(n, _)) => assert_eq!(n, "b"),
        _ => panic!("expected a non-constant initializer error"),
    }
}

#[test]
fn checker_merges_tentative_and_initialized_globals() {
    let mut program = parse("int x; int x = 5; int x;").unwrap();
    let symbols = check_program(&mut program).unwrap();
    let s = symbols.get(&"x".to_string()).unwrap();
    assert_eq!(s.attrs, IdentAttrs::StaticAttr { init: InitialValue::Initial(StaticInit::IntInit(5)), global: true });
}

#[test]
fn checker_refuses_conflicting_linkage() {
    let mut program = parse("static int x; int x;").unwrap();
    assert!(matches!(check_program(&mut program), Err(SemanticError::ConflictingStorageTypes(..))));
}

#[test]
fn checker_refuses_static_after_non_static_function() {
    let mut program = parse("int f(void); static int f(void);").unwrap();
    assert!(matches!(check_program(&mut program), Err(SemanticError::StaticAfterNonStatic(..))));
}

#[test]
fn poise_of_an_addition() {
    let (prog, symbols) = poise_of("int main(void) { return 2 + 3; }");
    assert_eq!(prog.top_level_items.len(), 1);
    match &prog.top_level_items[0] {
        TopLevelItem::F(f) => {
            assert_eq!(f.identifier, "main");
            assert!(f.global);
            assert_eq!(f.body.len(), 3);
            match &f.body[0] {
                PoiseInstruction::Binary { op, src1, src2, dst } => {
                    assert_eq!(*op, PoiseBinaryOp::Add);
                    assert!(is_int(src1, 2) && is_int(src2, 3) && is_var(dst, "tmp.0"));
                },
                _ => panic!("expected a binary instruction"),
            }
            assert!(matches!(&f.body[1], PoiseInstruction::Return(v) if is_var(v, "tmp.0")));
            assert!(matches!(&f.body[2], PoiseInstruction::Return(v) if is_int(v, 0)));
        },
        _ => panic!("expected a function"),
    }
    let t = symbols.get(&"tmp.0".to_string()).unwrap();
    assert_eq!(t.datatype, Type::Int);
    assert_eq!(t.attrs, IdentAttrs::LocalAttr);
}

#[test]
fn poise_of_a_logical_and_uses_two_labels() {
    let (prog, _) = poise_of("int main(void) { return 1 && 0; }");
    match &prog.top_level_items[0] {
        TopLevelItem::F(f) => {
            assert!(matches!(&f.body[0], PoiseInstruction::JumpIfZero { identifier, .. } if identifier == "lab.0"));
            assert!(matches!(&f.body[1], PoiseInstruction::JumpIfZero { identifier, .. } if identifier == "lab.0"));
            assert!(matches!(&f.body[2], PoiseInstruction::Copy { src, dst } if is_int(src, 1) && is_var(dst, "tmp.0")));
            assert!(matches!(&f.body[3], PoiseInstruction::Jump(l) if l == "lab.1"));
            assert!(matches!(&f.body[4], PoiseInstruction::Label(l) if l == "lab.0"));
            assert!(matches!(&f.body[5], PoiseInstruction::Copy { src, .. } if is_int(src, 0)));
            assert!(matches!(&f.body[6], PoiseInstruction::Label(l) if l == "lab.1"));
        },
        _ => panic!("expected a function"),
    }
}

#[test]
fn poise_converts_a_local_initializer() {
    let (prog, _) = poise_of("int main(void) { long x = 7; return 0; }");
    match &prog.top_level_items[0] {
        TopLevelItem::F(f) => {
            assert!(matches!(&f.body[0], PoiseInstruction::SignExtend { src, dst } if is_int(src, 7) && is_var(dst, "tmp.0")));
            assert!(matches!(&f.body[1], PoiseInstruction::Copy { src, dst } if is_var(src, "tmp.0") && is_var(dst, "x")));
        },
        _ => panic!("expected a function"),
    }
}

#[test]
fn poise_lists_static_objects_after_functions() {
    let (prog, _) = poise_of("int a; static long b = 4; int main(void) { return 0; }");
    assert_eq!(prog.top_level_items.len(), 3);
    assert!(matches!(&prog.top_level_items[0], TopLevelItem::F(_)));
    let mut statics: Vec<(String, bool, StaticInit)> = Vec::new();
    for item in &prog.top_level_items[1..] {
        match item {
            TopLevelItem::V(v) => statics.push((v.identifier.clone(), v.global, v.init.duplicate())),
            _ => panic!("expected a static variable"),
        }
    }
    assert_eq!(statics[0], ("a".to_string(), true, StaticInit::IntInit(0)));
    assert_eq!(statics[1], ("b".to_string(), false, StaticInit::IntInit(4)));
}

#[test]
fn codegen_and_emission_of_a_small_program() {
    let (prog, symbols) = poise_of("int main(void) { return 2 + 3; }");
    let (assembly, asm_symbols) = gen_program(prog, symbols, NameMap::new());
    assert_eq!(assembly.top_level.len(), 1);
    match &assembly.top_level[0] {
        AsmTopLevel::F(f) => {
            assert_eq!(f.identifier, "main");
            match &f.body[0] {
                AsmInstruction::Binary(BinaryOp::Sub, AsmType::Quadword, Operand::Imm(n), Operand::Reg(Register::SP, RegSize::Quad)) => {
                    assert_eq!(n % 16, 0);
                    assert!(*n >= 4);
                },
                other => panic!("unexpected first instruction {:?}", other),
            }
            assert!(f.body.iter().any(|i| matches!(i, AsmInstruction::Ret)));
        },
        _ => panic!("expected a function"),
    }
    let text = emit_program(assembly, &asm_symbols).unwrap();
    assert!(text.starts_with("\t.globl main\n\t.text\nmain:\n\tpushq\t%rbp\n\tmovq\t%rsp,\t%rbp\n"));
    assert!(text.contains("\tret\n"));
    assert!(text.ends_with("\n.section .note.GNU-stack,\"\",@progbits"));
}

#[test]
fn codegen_interns_double_constants_once() {
    let (prog, symbols) = poise_of("double main(void) { return 1.5 + 1.5; }");
    let (assembly, _) = gen_program(prog, symbols, NameMap::new());
    let constants: Vec<&AsmTopLevel> = assembly.top_level.iter().filter(|t| matches!(t, AsmTopLevel::C(_))).collect();
    assert_eq!(constants.len(), 1);
    match constants[0] {
        AsmTopLevel::C(c) => {
            assert_eq!(c.identifier, ".L.constant.0");
            assert_eq!(c.alignment, 8);
            assert_eq!(c.init, StaticInit::DoubleInit("1.5".to_string()));
        },
        _ => unreachable!(),
    }
}

#[test]
fn each_stage_accepts_what_the_stage_before_made() {
    let mut program = parse("int main(void) { int x = 2; return x + 3; }").unwrap();
    let mut symbols = check_program(&mut program).unwrap();
    assert!(poise_ready(&program, &symbols));
    let poise = gen_poise(&program, &mut symbols);
    assert!(codegen_ready(&poise, &symbols));
    let (assembly, asm_symbols) = gen_program(poise, symbols, NameMap::new());
    assert!(emit_ready(&assembly, &asm_symbols));
}

#[test]
fn an_unchecked_program_is_not_ready_for_the_generator() {
    let program = parse("int main(void) { return 1; }").unwrap();
    assert!(!poise_ready(&program, &SymbolTable::new()));
}

#[test]
fn a_call_to_an_unknown_function_cannot_be_written() {
    let f = AsmFunction {
        identifier: "f".to_string(),
        global: true,
        body: vec![AsmInstruction::Call("g".to_string()), AsmInstruction::Ret],
    };
    let program = AsmProgram { top_level: vec![AsmTopLevel::F(f)] };
    assert!(!emit_ready(&program, &NameMap::new()));
}

#[test]
fn parser_error_kinds() {
    assert!(matches!(parse("int main(void) { return 1 }"), Err(ParseError::UnexpectedToken(..))));
    assert!(matches!(parse("int main(void) { return 1;"), Err(ParseError::UnexpectedEOF)));
    assert!(matches!(parse("int main(void) { foo: int x; }"), Err(ParseError::LabelWithoutStatement(_))));
    assert!(matches!(parse("int main(void) { if (1) int x; }"), Err(ParseError::ExpectedStatement(_))));
    assert!(matches!(parse("int main(void) { return ; }"), Err(ParseError::ExpectedExpression(_))));
    assert!(matches!(parse("int int x;"), Err(ParseError::InvalidTypes(_))));
    assert!(matches!(parse("static extern int x;"), Err(ParseError::InvalidStorageClasses(_))));
    assert!(matches!(parse("int main(void) { return 99999999999999999999; }"), Err(ParseError::IntegerOverflow(_))));
    assert!(matches!(parse("int 3;"), Err(ParseError::InvalidDeclarator(_))));
    assert!(matches!(parse("int main(void) { for (int f(void); ; ) ; }"), Err(ParseError::ExpectedVarDecl(_))));
}

#[test]
fn checker_refuses_an_incompatible_redeclaration() {
    let mut program = parse("int f(void); long f(void);").unwrap();
    assert!(matches!(check_program(&mut program), Err(SemanticError::IncompatibleFuncDeclaration(n, _)) if n == "f"));
}

#[test]
fn checker_refuses_two_initialized_definitions() {
    let mut program = parse("int x = 1; int x = 2;").unwrap();
    assert!(matches!(check_program(&mut program), Err(SemanticError::ConflictingDefinitions(n, _)) if n == "x"));
}

#[test]
fn checker_refuses_a_non_constant_local_static() {
    let mut program = parse("int main(void) { int y = 1; static int s = y; return 0; }").unwrap();
    assert!(matches!(check_program(&mut program), Err(SemanticError::LocalStaticVarNonConstantInit(n, _)) if n == "s"));
}
