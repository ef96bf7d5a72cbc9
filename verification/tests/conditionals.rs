use compass::ast::{BinaryOperation, Condition, Expr, Statement, VarType};
use compass::lexer::Lexer;
use compass::parser::{ParseError, Parser};

fn parse_source(code: &str) -> Result<Vec<Statement>, ParseError> {
    let lexer = Lexer::new(code).expect("lexing should succeed");
    Parser::new().parse(lexer)
}

#[test]
fn should_declare_if_statement() {
    let ast = parse_source(
        "\n    a: i32 = 1\n    b: i32 = 2\n    c: i32 = 3\n\n    ",
    )
    .expect("parse should succeed");
    assert_eq!(ast.len(), 3);
    for statement in &ast {
        assert!(matches!(statement, Statement::VariableDeclaration(_)));
    }
}

#[test]
fn conditional_jump_carries_bool_operation() {
    let ast = parse_source("a: i32 = 1\nb: i32 = 2\nif a < b goto done\ndone:")
        .expect("parse should succeed");
    assert_eq!(ast.len(), 4);
    match &ast[2] {
        Statement::ConditionalJump { condition, label, .. } => {
            assert_eq!(label, "done");
            match condition {
                Expr::BinaryOperation(BinaryOperation::Conditional {
                    condition,
                    operation_type,
                    ..
                }) => {
                    assert_eq!(*condition, Condition::LessThan);
                    // every parsed conditional operation has type bool
                    assert_eq!(*operation_type, VarType::Bool);
                }
                other => panic!("expected a conditional operation, got {:?}", other),
            }
        }
        other => panic!("expected a conditional jump, got {:?}", other),
    }
}

#[test]
fn conditional_operands_must_share_a_type() {
    let result = parse_source("a: i32 = 1\nb: bool = true\nif a < b goto out\nout:");
    assert!(matches!(result, Err(ParseError::User { .. })));
}

#[test]
fn call_arguments_are_checked_against_the_callee() {
    // write_string takes one str argument
    assert!(parse_source("write_string(\"hi\")").is_ok());
    // wrong type
    assert!(matches!(
        parse_source("write_string(13)"),
        Err(ParseError::User { error: compass::lexer::LexicalError::WrongType { .. } })
    ));
    // wrong arity
    assert!(matches!(
        parse_source("write_string(\"a\" \"b\")"),
        Err(ParseError::User {
            error: compass::lexer::LexicalError::WrongArgumentCount { .. }
        })
    ));
    // unknown callee
    assert!(matches!(
        parse_source("nope(1)"),
        Err(ParseError::User { error: compass::lexer::LexicalError::UnknownFunction { .. } })
    ));
    // a non-void result cannot be dropped in statement position
    assert!(matches!(
        parse_source("read_int()"),
        Err(ParseError::User { error: compass::lexer::LexicalError::UnusedValue { .. } })
    ));
}

#[test]
fn function_definitions_register_and_type_check() {
    let ast = parse_source("func f(x: i32): void begin write_int(1) end\nf(5)")
        .expect("parse should succeed");
    assert_eq!(ast.len(), 2);
    match &ast[0] {
        Statement::FunctionDefinition(f) => {
            assert_eq!(f.name, "f");
            assert_eq!(f.args.len(), 1);
            assert_eq!(f.args[0].var_type, VarType::I32);
            assert_eq!(f.return_type, VarType::Void);
            assert_eq!(f.body.len(), 1);
        }
        other => panic!("expected a function definition, got {:?}", other),
    }
    match &ast[1] {
        Statement::Call(fc) => {
            assert_eq!(fc.name, "f");
            assert_eq!(fc.params.len(), 1);
            assert_eq!(fc.return_type, VarType::Void);
        }
        other => panic!("expected a call, got {:?}", other),
    }
    // calling with the wrong arity fails
    assert!(parse_source("func f(x: i32): void begin end\nf(5 6)").is_err());
    // defining a built-in name fails
    assert!(matches!(
        parse_source("func write_int(x: i32): void begin end"),
        Err(ParseError::User {
            error: compass::lexer::LexicalError::FunctionIsBuiltin { .. }
        })
    ));
    // duplicate definitions are rejected
    assert!(parse_source("func f(): void begin end\nfunc f(): void begin end").is_err());
}
