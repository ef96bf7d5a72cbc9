use compass::ast::Statement;
use compass::codegen::context::Context;
use compass::codegen::mips::MipsCodegen;
use compass::codegen::Codegen;
use compass::lexer::Lexer;
use compass::mips::{DataKind, DataValue, MipsArg, MipsOp, MipsProgram, MipsStatement};
use compass::parser::Parser;

fn parse_source(code: &str) -> Vec<Statement> {
    let lexer = Lexer::new(code).expect("lexing should succeed");
    Parser::new().parse(lexer).expect("parse should succeed")
}

fn compile(code: &str) -> MipsProgram {
    let ast = parse_source(code);
    let mut context = Context::new();
    MipsCodegen.generate(ast, &mut context).expect("code generation should succeed")
}

fn compile_err(code: &str) -> String {
    let ast = parse_source(code);
    let mut context = Context::new();
    match MipsCodegen.generate(ast, &mut context) {
        Err(message) => message,
        Ok(_) => panic!("expected code generation to fail"),
    }
}

fn reg(name: &str) -> MipsArg {
    MipsArg::Register(name.to_string())
}

fn imm(value: u32) -> MipsArg {
    MipsArg::Immediate(value)
}

fn lbl(name: &str) -> MipsArg {
    MipsArg::Label(name.to_string())
}

fn instr(op: MipsOp, args: Vec<MipsArg>) -> MipsStatement {
    MipsStatement::Instruction(op, args)
}

fn label(name: &str) -> MipsStatement {
    MipsStatement::Label(name.to_string())
}

#[test]
fn integer_init_emits_main_and_li() {
    let prog = compile("a: i32 = 13");
    assert_eq!(
        prog.text_section.statements,
        vec![label("main"), instr(MipsOp::Li, vec![reg("$t0"), imm(13)])]
    );
    assert!(prog.data_section.variables.is_empty());
}

#[test]
fn sum_of_registers_allocates_in_order() {
    let prog = compile("a: i32 = 13\nb: i32 = 14\nc: i32 = a + b");
    assert_eq!(
        prog.text_section.statements,
        vec![
            label("main"),
            instr(MipsOp::Li, vec![reg("$t0"), imm(13)]),
            instr(MipsOp::Li, vec![reg("$t1"), imm(14)]),
            instr(MipsOp::Add, vec![reg("$t2"), reg("$t0"), reg("$t1")]),
        ]
    );
}

#[test]
fn repeated_identifiers_reuse_their_register() {
    let prog = compile("a: i32 = 1\nb: i32 = a\nc: i32 = a");
    assert_eq!(
        prog.text_section.statements,
        vec![
            label("main"),
            instr(MipsOp::Li, vec![reg("$t0"), imm(1)]),
            instr(MipsOp::Move, vec![reg("$t1"), reg("$t0")]),
            instr(MipsOp::Move, vec![reg("$t2"), reg("$t0")]),
        ]
    );
}

#[test]
fn string_interning_shares_one_data_entry() {
    let prog = compile("write_string(\"hi\")\nwrite_string(\"hi\")");
    // exactly one .asciiz entry, named str_0, holding the literal text
    assert_eq!(prog.data_section.variables.len(), 1);
    let entry = &prog.data_section.variables[0];
    assert_eq!(entry.name, "str_0");
    assert_eq!(entry.kind, DataKind::Asciiz);
    assert_eq!(entry.value, DataValue::Str("\"hi\"".to_string()));
    // both call sites load the same label
    let la_labels: Vec<&MipsStatement> = prog
        .text_section
        .statements
        .iter()
        .filter(|s| matches!(s, MipsStatement::Instruction(MipsOp::La, _)))
        .collect();
    assert_eq!(la_labels.len(), 2);
    for s in la_labels {
        match s {
            MipsStatement::Instruction(_, args) => {
                assert_eq!(args[1], lbl("str_0"));
            }
            _ => unreachable!(),
        }
    }
    // distinct strings get distinct entries
    let prog = compile("write_string(\"hi\")\nwrite_string(\"ho\")");
    assert_eq!(prog.data_section.variables.len(), 2);
    assert_eq!(prog.data_section.variables[0].name, "str_0");
    assert_eq!(prog.data_section.variables[1].name, "str_1");
}

#[test]
fn short_circuit_and_emits_two_beqz_and_a_fresh_label() {
    let prog = compile("a: bool = true\nb: bool = true\nif a && b goto out\nout:");
    assert_eq!(
        prog.text_section.statements,
        vec![
            label("main"),
            instr(MipsOp::Li, vec![reg("$t0"), imm(1)]),
            instr(MipsOp::Li, vec![reg("$t1"), imm(1)]),
            instr(MipsOp::Beqz, vec![reg("$t0"), lbl("__and_1")]),
            instr(MipsOp::Beqz, vec![reg("$t1"), lbl("__and_1")]),
            instr(MipsOp::J, vec![lbl("out")]),
            label("__and_1"),
            label("out"),
        ]
    );
}

#[test]
fn short_circuit_or_emits_two_bnez() {
    let prog = compile("a: bool = true\nb: bool = false\nif a || b goto out\nout:");
    let text = &prog.text_section.statements;
    assert_eq!(text[3], instr(MipsOp::Bnez, vec![reg("$t0"), lbl("out")]));
    assert_eq!(text[4], instr(MipsOp::Bnez, vec![reg("$t1"), lbl("out")]));
}

#[test]
fn user_function_body_precedes_main() {
    let prog = compile("func f(x: i32): void begin write_int(1) end\nf(5)");
    let text = &prog.text_section.statements;
    // the function label opens the program, its body ends with jr $ra
    assert_eq!(text[0], label("__f"));
    let main_at = text
        .iter()
        .position(|s| matches!(s, MipsStatement::Label(l) if l == "main"))
        .expect("main label");
    let jr_at = text
        .iter()
        .position(|s| matches!(s, MipsStatement::Instruction(MipsOp::Jr, _)))
        .expect("jr");
    assert!(jr_at < main_at, "function body must precede main");
    // exactly one main label in the whole program
    let mains = text
        .iter()
        .filter(|s| matches!(s, MipsStatement::Label(l) if l == "main"))
        .count();
    assert_eq!(mains, 1);
    // the call site loads the literal and jumps
    assert_eq!(text[main_at + 1], instr(MipsOp::Li, vec![reg("$t1"), imm(5)]));
    assert_eq!(
        text[main_at + 2],
        instr(MipsOp::Move, vec![reg("$a0"), reg("$t1")])
    );
    assert_eq!(text[main_at + 3], instr(MipsOp::Jal, vec![lbl("f")]));
}

#[test]
fn conditional_comparison_branches_directly() {
    let prog = compile("a: i32 = 1\nb: i32 = 2\nif a < b goto out\nout:");
    let text = &prog.text_section.statements;
    assert_eq!(
        text[3],
        instr(MipsOp::Blt, vec![reg("$t0"), reg("$t1"), lbl("out")])
    );
}

#[test]
fn read_int_and_read_string_lower_to_syscalls() {
    let prog = compile("n: i32 = read_int()");
    assert_eq!(
        prog.text_section.statements,
        vec![
            label("main"),
            instr(MipsOp::Li, vec![reg("$v0"), imm(5)]),
            instr(MipsOp::Syscall, vec![]),
            instr(MipsOp::Move, vec![reg("$t0"), reg("$v0")]),
        ]
    );

    let prog = compile("s: str = read_string(64u32)");
    let entry = &prog.data_section.variables[0];
    assert_eq!(entry.name, "__buffer_1");
    assert_eq!(entry.kind, DataKind::Space);
    assert_eq!(entry.value, DataValue::Bytes(64));
    assert_eq!(
        prog.text_section.statements,
        vec![
            label("main"),
            instr(MipsOp::Li, vec![reg("$v0"), imm(8)]),
            instr(MipsOp::La, vec![reg("$a0"), lbl("__buffer_1")]),
            instr(MipsOp::Li, vec![reg("$a1"), imm(64)]),
            instr(MipsOp::Syscall, vec![]),
            instr(MipsOp::Move, vec![reg("$t0"), reg("$v0")]),
        ]
    );
}

#[test]
fn write_int_lowers_to_the_print_syscall() {
    let prog = compile("a: i32 = 7\nwrite_int(a)");
    assert_eq!(
        prog.text_section.statements,
        vec![
            label("main"),
            instr(MipsOp::Li, vec![reg("$t0"), imm(7)]),
            instr(MipsOp::Li, vec![reg("$v0"), imm(1)]),
            instr(MipsOp::Move, vec![reg("$a0"), reg("$t0")]),
            instr(MipsOp::Syscall, vec![]),
        ]
    );
}

#[test]
fn u64_initializer_is_rejected() {
    let message = compile_err("a: u64 = 5u64");
    assert_eq!(message, "Cannot store a 64-bit integer in a 32-bit register");
}

#[test]
fn immediate_register_arithmetic_is_rejected() {
    let message = compile_err("a: i32 = 1\nb: i32 = 2 + a");
    assert_eq!(message, "Invalid operands for arithmetic operation");
}

#[test]
fn main_label_is_reserved() {
    let message = compile_err("main:");
    assert_eq!(message, "Cannot use 'main' as a label name");
}

#[test]
fn store_lowers_between_registers() {
    let prog = compile("a: i32 = 1\nb: i32 = 2\nstore b *a");
    let text = &prog.text_section.statements;
    // the store writes b's register through a's register
    assert_eq!(
        text[text.len() - 1],
        instr(MipsOp::Sw, vec![reg("$t1"), reg("$t0")])
    );
}

#[test]
fn negative_literals_encode_as_two_complement_immediates() {
    let prog = compile("a: i32 = -5");
    assert_eq!(
        prog.text_section.statements,
        vec![label("main"), instr(MipsOp::Li, vec![reg("$t0"), imm(4294967291)])]
    );
}
