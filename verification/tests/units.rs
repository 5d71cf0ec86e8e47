use poisecc::codegen::asm_ast::{
    get_alignment, get_func_reg, get_regsize, AsmFunction, AsmInstruction, AsmProgram, AsmTopLevel, AsmType, BinaryOp,
    FuncNum, Operand, RegSize, Register, Statics,
};
use poisecc::codegen::asm_symtab::{convert_type, AsmSymbol};
use poisecc::codegen::stack::assign_stack_slots;
use poisecc::emit::{emit_program, EmissionError};
use poisecc::namemap::NameMap;
use poisecc::text::{i64_to_string, u64_to_string};
use poisecc::types::Type;

#[test]
fn decimal_text_of_integers() {
    assert_eq!(u64_to_string(0), "0");
    assert_eq!(u64_to_string(1234567890123), "1234567890123");
    assert_eq!(u64_to_string(u64::MAX), "18446744073709551615");
    assert_eq!(i64_to_string(-42), "-42");
    assert_eq!(i64_to_string(i64::MIN), "-9223372036854775808");
}

#[test]
fn name_map_reads_back_what_was_written() {
    let mut m: NameMap<u32> = NameMap::new();
    assert_eq!(m.get(&"a".to_string()), None);
    m.insert("a".to_string(), 1);
    m.insert("b".to_string(), 2);
    m.insert("a".to_string(), 3);
    assert_eq!(m.get(&"a".to_string()), Some(&3));
    assert_eq!(m.get(&"b".to_string()), Some(&2));
    assert_eq!(m.get(&"c".to_string()), None);
}

#[test]
fn argument_registers_follow_the_calling_convention() {
    assert_eq!(get_func_reg(0, false), Register::DI);
    assert_eq!(get_func_reg(5, false), Register::R9);
    assert_eq!(get_func_reg(0, true), Register::XMM0);
    assert_eq!(get_func_reg(7, true), Register::XMM7);
}

#[test]
fn func_num_hands_out_registers_then_stack_slots() {
    let mut n = FuncNum::new();
    for i in 0..6 {
        assert_eq!(n.get_int(), (true, i));
    }
    assert_eq!(n.get_int(), (false, 0));
    assert_eq!(n.get_float(), (true, 0));
    assert_eq!(n.get_int(), (false, 1));
}

#[test]
fn sizes_and_alignments_of_assembly_types() {
    assert_eq!(get_regsize(&AsmType::Longword), RegSize::Long);
    assert_eq!(get_regsize(&AsmType::Double), RegSize::Quad);
    assert_eq!(get_alignment(&AsmType::Longword), 4);
    assert_eq!(get_alignment(&AsmType::Quadword), 8);
    assert_eq!(get_alignment(&AsmType::Double), 8);
    assert_eq!(convert_type(&Type::UInt), AsmType::Longword);
    assert_eq!(convert_type(&Type::ULong), AsmType::Quadword);
    assert_eq!(convert_type(&Type::Double), AsmType::Double);
}

#[test]
fn large_immediates_are_told_apart() {
    assert!(Operand::Imm(4294967295).is_large_32bit_imm());
    assert!(!Operand::Imm(4294967295).is_large_64bit_imm());
    assert!(Operand::Imm(-1).is_large_64bit_imm());
    assert!(!Operand::Imm(7).is_large_32bit_imm());
    assert!(Operand::Stack(-8).is_memory());
    assert!(!Operand::Reg(Register::AX, RegSize::Quad).is_memory());
}

#[test]
fn interning_a_double_twice_gives_one_constant() {
    let mut s = Statics::new();
    let a = s.intern_static("2.5".to_string(), 8);
    let b = s.intern_static("-0.0".to_string(), 16);
    let c = s.intern_static("2.5".to_string(), 8);
    let d = s.intern_static("2.5".to_string(), 16);
    assert_eq!(a, ".L.constant.0");
    assert_eq!(b, ".L.constant.1");
    assert_eq!(c, a);
    assert_eq!(d, ".L.constant.2");
    assert_eq!(s.statics_map.len(), 3);
}

fn obj(t: AsmType, is_static: bool) -> AsmSymbol {
    AsmSymbol::ObjEntry(t, is_static, false)
}

#[test]
fn stack_slots_replace_pseudo_registers() {
    let mut symbols = NameMap::new();
    symbols.insert("x".to_string(), obj(AsmType::Longword, false));
    symbols.insert("y".to_string(), obj(AsmType::Quadword, false));
    symbols.insert("g".to_string(), obj(AsmType::Longword, true));
    let body = vec![
        AsmInstruction::Mov(AsmType::Longword, Operand::Imm(1), Operand::Pseudo("x".to_string())),
        AsmInstruction::Mov(AsmType::Quadword, Operand::Imm(2), Operand::Pseudo("y".to_string())),
        AsmInstruction::Mov(AsmType::Longword, Operand::Pseudo("x".to_string()), Operand::Pseudo("g".to_string())),
        AsmInstruction::Ret,
    ];
    let f = AsmFunction { identifier: "f".to_string(), global: true, body };
    let fixed = assign_stack_slots(vec![f], &symbols);
    assert_eq!(fixed.len(), 1);
    let body = &fixed[0].body;
    match &body[0] {
        AsmInstruction::Binary(BinaryOp::Sub, AsmType::Quadword, Operand::Imm(n), Operand::Reg(Register::SP, RegSize::Quad)) => {
            assert_eq!(n % 16, 0);
            assert!(*n >= 16);
        },
        other => panic!("unexpected {:?}", other),
    }
    for inst in body.iter() {
        let ops: Vec<&Operand> = match inst {
            AsmInstruction::Mov(_, a, b) => vec![a, b],
            _ => vec![],
        };
        for op in ops {
            assert!(!matches!(op, Operand::Pseudo(_)));
        }
    }
    assert!(body.iter().any(|i| matches!(i, AsmInstruction::Mov(_, _, Operand::Data(n)) if n == "g")));
}

#[test]
fn emission_reports_an_unresolved_pseudo_register() {
    let f = AsmFunction {
        identifier: "f".to_string(),
        global: false,
        body: vec![AsmInstruction::Mov(AsmType::Longword, Operand::Imm(1), Operand::Pseudo("q".to_string()))],
    };
    let program = AsmProgram { top_level: vec![AsmTopLevel::F(f)] };
    match emit_program(program, &NameMap::new()) {
        Err(EmissionError::UnresolvedPseudoRegister(n)) => assert_eq!(n, "q"),
        other => panic!("unexpected {:?}", other),
    }
}

#[test]
fn emission_of_a_function_and_a_variable() {
    let f = AsmFunction {
        identifier: "f".to_string(),
        global: false,
        body: vec![
            AsmInstruction::Mov(AsmType::Longword, Operand::Imm(7), Operand::Reg(Register::AX, RegSize::Long)),
            AsmInstruction::Ret,
        ],
    };
    let v = poisecc::codegen::asm_ast::AsmStaticVar {
        identifier: "g".to_string(),
        global: true,
        alignment: 4,
        init: poisecc::types::StaticInit::IntInit(3),
    };
    let program = AsmProgram { top_level: vec![AsmTopLevel::V(v), AsmTopLevel::F(f)] };
    let text = emit_program(program, &NameMap::new()).unwrap();
    let expected = "\t.globl g\n\t.data\n\t.align 4\ng:\n\t.long 3\n\t.text\nf:\n\tpushq\t%rbp\n\tmovq\t%rsp,\t%rbp\n";
    assert!(text.starts_with(expected), "{}", text);
    assert!(text.contains("\tret\n"));
}

#[test]
fn stack_slots_rewrite_unencodable_instructions() {
    let mut symbols = NameMap::new();
    symbols.insert("x".to_string(), obj(AsmType::Longword, false));
    symbols.insert("y".to_string(), obj(AsmType::Longword, false));
    let x = || Operand::Pseudo("x".to_string());
    let y = || Operand::Pseudo("y".to_string());
    let body = vec![
        AsmInstruction::Mov(AsmType::Longword, x(), y()),
        AsmInstruction::Cmp(AsmType::Longword, x(), Operand::Imm(3)),
        AsmInstruction::Binary(BinaryOp::Mult, AsmType::Quadword, Operand::Imm(5000000000), y()),
    ];
    let f = AsmFunction { identifier: "f".to_string(), global: false, body };
    let fixed = assign_stack_slots(vec![f], &symbols);
    let r10l = Operand::Reg(Register::R10, RegSize::Long);
    let r11l = Operand::Reg(Register::R11, RegSize::Long);
    let r10q = Operand::Reg(Register::R10, RegSize::Quad);
    let r11q = Operand::Reg(Register::R11, RegSize::Quad);
    let expected = vec![
        AsmInstruction::Binary(BinaryOp::Sub, AsmType::Quadword, Operand::Imm(16), Operand::Reg(Register::SP, RegSize::Quad)),
        AsmInstruction::Mov(AsmType::Longword, Operand::Stack(-4), r10l.duplicate()),
        AsmInstruction::Mov(AsmType::Longword, r10l, Operand::Stack(-8)),
        AsmInstruction::Mov(AsmType::Longword, Operand::Imm(3), r11l.duplicate()),
        AsmInstruction::Cmp(AsmType::Longword, Operand::Stack(-4), r11l),
        AsmInstruction::Mov(AsmType::Quadword, Operand::Imm(5000000000), r10q.duplicate()),
        AsmInstruction::Mov(AsmType::Quadword, Operand::Stack(-8), r11q.duplicate()),
        AsmInstruction::Binary(BinaryOp::Mult, AsmType::Quadword, r10q, r11q.duplicate()),
        AsmInstruction::Mov(AsmType::Quadword, r11q, Operand::Stack(-8)),
    ];
    assert_eq!(fixed[0].body, expected);
}

#[test]
fn stack_slots_are_aligned_and_apart() {
    let mut symbols = NameMap::new();
    symbols.insert("x".to_string(), obj(AsmType::Longword, false));
    symbols.insert("y".to_string(), obj(AsmType::Quadword, false));
    let body = vec![
        AsmInstruction::Mov(AsmType::Longword, Operand::Imm(1), Operand::Pseudo("x".to_string())),
        AsmInstruction::Mov(AsmType::Quadword, Operand::Imm(2), Operand::Pseudo("y".to_string())),
        AsmInstruction::Mov(AsmType::Longword, Operand::Imm(3), Operand::Pseudo("x".to_string())),
    ];
    let f = AsmFunction { identifier: "f".to_string(), global: true, body };
    let fixed = assign_stack_slots(vec![f], &symbols);
    let expected = vec![
        AsmInstruction::Binary(BinaryOp::Sub, AsmType::Quadword, Operand::Imm(16), Operand::Reg(Register::SP, RegSize::Quad)),
        AsmInstruction::Mov(AsmType::Longword, Operand::Imm(1), Operand::Stack(-4)),
        AsmInstruction::Mov(AsmType::Quadword, Operand::Imm(2), Operand::Stack(-16)),
        AsmInstruction::Mov(AsmType::Longword, Operand::Imm(3), Operand::Stack(-4)),
    ];
    assert_eq!(fixed[0].body, expected);
}
