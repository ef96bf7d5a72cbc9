use compass::ast::{BinaryOperation, Expr, Operand, Operator, Statement, VarType};
use compass::lexer::{Lexer, LexicalError};
use compass::parser::{ParseError, Parser};

fn parse_source(code: &str) -> Result<Vec<Statement>, ParseError> {
    let lexer = Lexer::new(code).expect("lexing should succeed");
    Parser::new().parse(lexer)
}

fn single_declaration(code: &str) -> compass::ast::Variable {
    let mut ast = parse_source(code).expect("parse should succeed");
    assert_eq!(ast.len(), 1);
    match ast.remove(0) {
        Statement::VariableDeclaration(v) => v,
        other => panic!("expected a declaration, got {:?}", other),
    }
}

fn expect_wrong_type(code: &str, expected: &str, found: &str) {
    match parse_source(code) {
        Err(ParseError::User { error: LexicalError::WrongType { error, .. } }) => {
            let message = &error[0].message;
            assert!(message.contains(expected), "message {:?}", message);
            assert!(message.contains(found), "message {:?}", message);
        }
        other => panic!("expected a WrongType error, got {:?}", other),
    }
}

#[test]
fn should_assign_i32() {
    let v = single_declaration("a: i32 = 13");
    assert_eq!(v.var_type, VarType::I32);
    assert_eq!(v.name, "a");
    assert!(matches!(v.value, Expr::Operand(Operand::LiteralI32(13))));

    let v = single_declaration("a: i32 = 13i32");
    assert_eq!(v.var_type, VarType::I32);
    assert!(matches!(v.value, Expr::Operand(Operand::LiteralI32(13))));
}

#[test]
fn should_assign_f32() {
    for code in [
        "a: f32 = 12.0",
        "a: f32 = 2.",
        "a: f32 = .2",
        "a: f32 = 14.0f32",
        "a: f32 = .3f32",
        "a: f32 = 2.f32",
        "a: f32 = 1f32",
    ] {
        let v = single_declaration(code);
        assert_eq!(v.var_type, VarType::F32, "{}", code);
        assert!(
            matches!(v.value, Expr::Operand(Operand::LiteralF32(_))),
            "{}: {:?}",
            code,
            v.value
        );
    }
}

#[test]
fn should_assign_f64() {
    for code in [
        "a: f64 = 14.0f64",
        "a: f64 = .3f64",
        "a: f64 = 2.f64",
        "a: f64 = 1f64",
    ] {
        let v = single_declaration(code);
        assert_eq!(v.var_type, VarType::F64, "{}", code);
        assert!(
            matches!(v.value, Expr::Operand(Operand::LiteralF64(_))),
            "{}: {:?}",
            code,
            v.value
        );
    }
}

#[test]
fn should_assign_sum_of_i32() {
    for code in ["a: i32 = 13 + 14", "a: i32 = 13i32 + 14i32"] {
        let v = single_declaration(code);
        assert_eq!(v.var_type, VarType::I32, "{}", code);
        match v.value {
            Expr::BinaryOperation(BinaryOperation::Arithmetic {
                lhs,
                operator,
                rhs,
                operation_type,
            }) => {
                assert!(matches!(lhs, Operand::LiteralI32(13)));
                assert_eq!(operator, Operator::Add);
                assert!(matches!(rhs, Operand::LiteralI32(14)));
                assert_eq!(operation_type, VarType::I32);
            }
            other => panic!("expected an arithmetic operation, got {:?}", other),
        }
    }
}

#[test]
fn should_mismatch_type_i32() {
    expect_wrong_type("a: i32 = 13.0", "i32", "f32");
    expect_wrong_type("\n    b: f32 = 13.0\n    a: i32 = b\n    ", "i32", "f32");
}

#[test]
fn should_mismatch_type_f32() {
    expect_wrong_type("a: f32 = 13", "f32", "i32");
    expect_wrong_type("\n    b: i32 = 13\n    a: f32 = b\n    ", "f32", "i32");
}

#[test]
fn wrong_type_message_names_both_types() {
    match parse_source("a: i32 = 13.0") {
        Err(ParseError::User { error: LexicalError::WrongType { error, help } }) => {
            assert_eq!(error.len(), 1);
            assert_eq!(error[0].message, "expected type `i32`, but found type `f32`");
            assert!(help.is_none());
        }
        other => panic!("expected a WrongType error, got {:?}", other),
    }
}

#[test]
fn unknown_variable_reports_identifier_span() {
    match parse_source("a: i32 = b") {
        Err(ParseError::User { error: LexicalError::UnknownVariable { error, .. } }) => {
            assert_eq!(error.len(), 1);
            assert_eq!(error[0].message, "unknown variable `b`");
            assert_eq!(error[0].location.start, 9);
            assert_eq!(error[0].location.end, 10);
        }
        other => panic!("expected an UnknownVariable error, got {:?}", other),
    }
}

#[test]
fn declarations_shadow_by_scope_and_resolve_types() {
    // the second declaration reads the first: both must agree on i32
    let ast = parse_source("a: i32 = 1\nb: i32 = a").expect("parse should succeed");
    assert_eq!(ast.len(), 2);
    match &ast[1] {
        Statement::VariableDeclaration(v) => {
            assert_eq!(v.var_type, VarType::I32);
            assert!(matches!(&v.value, Expr::Operand(Operand::Identifier(n)) if n == "a"));
        }
        other => panic!("expected a declaration, got {:?}", other),
    }
}
