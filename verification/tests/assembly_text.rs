//! End-to-end: the generated program value serializes to the expected
//! assembly text through the downstream assembler library.

use celestial_hub_astrolabe::ast as astro;
use celestial_hub_astrolabe::lexer::tokens::{Type as AsmType, Value as AsmValue};
use compass::codegen::context::Context;
use compass::codegen::mips::MipsCodegen;
use compass::codegen::Codegen;
use compass::lexer::Lexer;
use compass::mips::{DataKind, DataValue, MipsArg, MipsOp, MipsProgram, MipsStatement};
use compass::parser::Parser;

fn compile(code: &str) -> MipsProgram {
    let lexer = Lexer::new(code).expect("lexing should succeed");
    let ast = Parser::new().parse(lexer).expect("parse should succeed");
    let mut context = Context::new();
    MipsCodegen.generate(ast, &mut context).expect("code generation should succeed")
}

fn mnemonic(op: MipsOp) -> &'static str {
    match op {
        MipsOp::Li => "li",
        MipsOp::La => "la",
        MipsOp::Move => "move",
        MipsOp::Add => "add",
        MipsOp::Sub => "sub",
        MipsOp::Mul => "mul",
        MipsOp::Div => "div",
        MipsOp::SetLt => "slt",
        MipsOp::SetGt => "sgt",
        MipsOp::SetLe => "sle",
        MipsOp::SetGe => "sge",
        MipsOp::SetEq => "seq",
        MipsOp::SetNe => "sne",
        MipsOp::Beq => "beq",
        MipsOp::Bne => "bne",
        MipsOp::Blt => "blt",
        MipsOp::Bgt => "bgt",
        MipsOp::Ble => "ble",
        MipsOp::Bge => "bge",
        MipsOp::Beqz => "beqz",
        MipsOp::Bnez => "bnez",
        MipsOp::J => "j",
        MipsOp::Jal => "jal",
        MipsOp::Jr => "jr",
        MipsOp::Sw => "sw",
        MipsOp::Syscall => "syscall",
    }
}

fn to_asm(prog: &MipsProgram) -> astro::Program {
    let variables = prog
        .data_section
        .variables
        .iter()
        .map(|v| astro::Variable {
            name: v.name.clone(),
            type_: match v.kind {
                DataKind::Asciiz => AsmType::Asciiz,
                DataKind::Space => AsmType::Space,
            },
            value: match &v.value {
                DataValue::Str(s) => AsmValue::String(s.clone()),
                DataValue::Bytes(n) => AsmValue::Bytes(*n as i32),
            },
        })
        .collect();
    let statements = prog
        .text_section
        .statements
        .iter()
        .map(|s| match s {
            MipsStatement::Label(l) => astro::Statement::Label(l.clone()),
            MipsStatement::Instruction(op, args) => {
                let args = args
                    .iter()
                    .map(|a| match a {
                        MipsArg::Register(name) => {
                            astro::InstructionArgument::Register(astro::Register {
                                name: name.clone(),
                            })
                        }
                        MipsArg::Immediate(v) => astro::InstructionArgument::Immediate(*v as i32),
                        MipsArg::Label(l) => astro::InstructionArgument::Label(l.clone()),
                    })
                    .collect();
                astro::Statement::Instruction(astro::Instruction::new(
                    mnemonic(*op).to_string(),
                    args,
                ))
            }
        })
        .collect();
    astro::Program {
        data_section: astro::DataSection { variables },
        text_section: astro::TextSection {
            statements,
            entrypoint: "main".to_string(),
        },
    }
}

#[test]
fn integer_init_serializes_with_main_and_li() {
    let text = to_asm(&compile("a: i32 = 13")).to_string();
    assert!(text.contains("main:"), "{}", text);
    assert!(text.contains("li $t0, 13"), "{}", text);
}

#[test]
fn sum_serializes_with_add() {
    let text = to_asm(&compile("a: i32 = 13\nb: i32 = 14\nc: i32 = a + b")).to_string();
    assert!(text.contains("li $t0, 13"), "{}", text);
    assert!(text.contains("li $t1, 14"), "{}", text);
    assert!(text.contains("add $t2, $t0, $t1"), "{}", text);
}

#[test]
fn interned_string_serializes_once() {
    let text = to_asm(&compile("write_string(\"hi\")\nwrite_string(\"hi\")")).to_string();
    assert_eq!(text.matches(".asciiz").count(), 1, "{}", text);
    assert!(text.contains("str_0: .asciiz \"hi\""), "{}", text);
    assert_eq!(text.matches(", str_0").count(), 2, "{}", text);
}

#[test]
fn function_label_precedes_main_in_the_text() {
    let text = to_asm(&compile("func f(x: i32): void begin write_int(1) end\nf(5)"))
        .to_string();
    let f_at = text.find("__f:").expect("__f label");
    let main_at = text.find("main:").expect("main label");
    assert!(f_at < main_at, "{}", text);
    assert!(text.contains("jr $ra"), "{}", text);
    assert!(text.contains("jal f"), "{}", text);
}

#[test]
fn negative_immediates_serialize_back_as_signed() {
    let text = to_asm(&compile("a: i32 = -5")).to_string();
    assert!(text.contains("li $t0, -5"), "{}", text);
}
