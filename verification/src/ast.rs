//! The abstract syntax of the source language: typed three-address code.

pub mod context;

use vstd::prelude::*;
use vstd::string::*;

use crate::ast::context::Context;
use crate::lexer::{ErrorTip, LexicalError};
use crate::text::concat3;

verus! {

/// A half-open range of character offsets into the source text.
#[derive(Clone, Copy, Debug, PartialEq, Eq, Structural)]
pub struct Span {
    pub start: usize,
    pub end: usize,
}

/// The primitive types of the source language.
#[derive(Clone, Copy, Debug, PartialEq, Eq, Structural)]
pub enum VarType {
    I8,
    I16,
    I32,
    I64,
    U8,
    U16,
    U32,
    U64,
    Bool,
    F32,
    F64,
    Str,
    Void,
    Ptr,
}

impl VarType {
    /// The canonical lowercase spelling of the type.
    pub fn as_text(&self) -> (r: &'static str)
        ensures
            r@ == self.spec_text(),
    {
        proof {
            reveal_strlit("i8");
            reveal_strlit("i16");
            reveal_strlit("i32");
            reveal_strlit("i64");
            reveal_strlit("u8");
            reveal_strlit("u16");
            reveal_strlit("u32");
            reveal_strlit("u64");
            reveal_strlit("bool");
            reveal_strlit("f32");
            reveal_strlit("f64");
            reveal_strlit("str");
            reveal_strlit("void");
            reveal_strlit("ptr");
        }
        match self {
            VarType::I8 => "i8",
            VarType::I16 => "i16",
            VarType::I32 => "i32",
            VarType::I64 => "i64",
            VarType::U8 => "u8",
            VarType::U16 => "u16",
            VarType::U32 => "u32",
            VarType::U64 => "u64",
            VarType::Bool => "bool",
            VarType::F32 => "f32",
            VarType::F64 => "f64",
            VarType::Str => "str",
            VarType::Void => "void",
            VarType::Ptr => "ptr",
        }
    }

    /// Parses the canonical spelling of a type.
    pub fn from_text(s: &str) -> (r: Option<VarType>)
        ensures
            r == type_of_text(s@),
            match r {
                Option::Some(vt) => vt.spec_text() == s@,
                Option::None => forall|vt: VarType| (#[trigger] vt.spec_text()) != s@,
            },
    {
        if crate::text::str_eq(s, "i8") {
            Option::Some(VarType::I8)
        } else if crate::text::str_eq(s, "i16") {
            Option::Some(VarType::I16)
        } else if crate::text::str_eq(s, "i32") {
            Option::Some(VarType::I32)
        } else if crate::text::str_eq(s, "i64") {
            Option::Some(VarType::I64)
        } else if crate::text::str_eq(s, "u8") {
            Option::Some(VarType::U8)
        } else if crate::text::str_eq(s, "u16") {
            Option::Some(VarType::U16)
        } else if crate::text::str_eq(s, "u32") {
            Option::Some(VarType::U32)
        } else if crate::text::str_eq(s, "u64") {
            Option::Some(VarType::U64)
        } else if crate::text::str_eq(s, "bool") {
            Option::Some(VarType::Bool)
        } else if crate::text::str_eq(s, "f32") {
            Option::Some(VarType::F32)
        } else if crate::text::str_eq(s, "f64") {
            Option::Some(VarType::F64)
        } else if crate::text::str_eq(s, "str") {
            Option::Some(VarType::Str)
        } else if crate::text::str_eq(s, "void") {
            Option::Some(VarType::Void)
        } else if crate::text::str_eq(s, "ptr") {
            Option::Some(VarType::Ptr)
        } else {
            Option::None
        }
    }

    /// The canonical spelling, as a sequence of characters.
    pub open spec fn spec_text(self) -> Seq<char> {
        match self {
            VarType::I8 => "i8"@,
            VarType::I16 => "i16"@,
            VarType::I32 => "i32"@,
            VarType::I64 => "i64"@,
            VarType::U8 => "u8"@,
            VarType::U16 => "u16"@,
            VarType::U32 => "u32"@,
            VarType::U64 => "u64"@,
            VarType::Bool => "bool"@,
            VarType::F32 => "f32"@,
            VarType::F64 => "f64"@,
            VarType::Str => "str"@,
            VarType::Void => "void"@,
            VarType::Ptr => "ptr"@,
        }
    }
}

/// The type a canonical spelling denotes, if any.
pub open spec fn type_of_text(t: Seq<char>) -> Option<VarType> {
    if t == "i8"@ {
        Option::Some(VarType::I8)
    } else if t == "i16"@ {
        Option::Some(VarType::I16)
    } else if t == "i32"@ {
        Option::Some(VarType::I32)
    } else if t == "i64"@ {
        Option::Some(VarType::I64)
    } else if t == "u8"@ {
        Option::Some(VarType::U8)
    } else if t == "u16"@ {
        Option::Some(VarType::U16)
    } else if t == "u32"@ {
        Option::Some(VarType::U32)
    } else if t == "u64"@ {
        Option::Some(VarType::U64)
    } else if t == "bool"@ {
        Option::Some(VarType::Bool)
    } else if t == "f32"@ {
        Option::Some(VarType::F32)
    } else if t == "f64"@ {
        Option::Some(VarType::F64)
    } else if t == "str"@ {
        Option::Some(VarType::Str)
    } else if t == "void"@ {
        Option::Some(VarType::Void)
    } else if t == "ptr"@ {
        Option::Some(VarType::Ptr)
    } else {
        Option::None
    }
}

/// An operand: an identifier, a dereference, or a literal.
///
/// Float literals keep their source spelling: float code generation is an
/// explicit non-goal, so the numeric value is never needed, only the
/// literal's type and its text for diagnostics.
#[derive(Clone, Debug, PartialEq)]
pub enum Operand {
    Identifier(String),
    Dereference(String),
    LiteralStr(String),
    LiteralBool(bool),
    LiteralI8(i8),
    LiteralI16(i16),
    LiteralI32(i32),
    LiteralI64(i64),
    LiteralU8(u8),
    LiteralU16(u16),
    LiteralU32(u32),
    LiteralU64(u64),
    LiteralF32(String),
    LiteralF64(String),
}

impl Operand {
    /// The type an operand denotes on its own: literals by their variant,
    /// dereferences always `ptr`, identifiers only via a context.
    pub open spec fn spec_literal_type(self) -> Option<VarType> {
        match self {
            Operand::Identifier(_) => Option::None,
            Operand::Dereference(_) => Option::Some(VarType::Ptr),
            Operand::LiteralStr(_) => Option::Some(VarType::Str),
            Operand::LiteralBool(_) => Option::Some(VarType::Bool),
            Operand::LiteralI8(_) => Option::Some(VarType::I8),
            Operand::LiteralI16(_) => Option::Some(VarType::I16),
            Operand::LiteralI32(_) => Option::Some(VarType::I32),
            Operand::LiteralI64(_) => Option::Some(VarType::I64),
            Operand::LiteralU8(_) => Option::Some(VarType::U8),
            Operand::LiteralU16(_) => Option::Some(VarType::U16),
            Operand::LiteralU32(_) => Option::Some(VarType::U32),
            Operand::LiteralU64(_) => Option::Some(VarType::U64),
            Operand::LiteralF32(_) => Option::Some(VarType::F32),
            Operand::LiteralF64(_) => Option::Some(VarType::F64),
        }
    }

    /// Executable form of `spec_literal_type`.
    pub fn literal_type(&self) -> (r: Option<VarType>)
        ensures
            r == self.spec_literal_type(),
    {
        match self {
            Operand::Identifier(_) => Option::None,
            Operand::Dereference(_) => Option::Some(VarType::Ptr),
            Operand::LiteralStr(_) => Option::Some(VarType::Str),
            Operand::LiteralBool(_) => Option::Some(VarType::Bool),
            Operand::LiteralI8(_) => Option::Some(VarType::I8),
            Operand::LiteralI16(_) => Option::Some(VarType::I16),
            Operand::LiteralI32(_) => Option::Some(VarType::I32),
            Operand::LiteralI64(_) => Option::Some(VarType::I64),
            Operand::LiteralU8(_) => Option::Some(VarType::U8),
            Operand::LiteralU16(_) => Option::Some(VarType::U16),
            Operand::LiteralU32(_) => Option::Some(VarType::U32),
            Operand::LiteralU64(_) => Option::Some(VarType::U64),
            Operand::LiteralF32(_) => Option::Some(VarType::F32),
            Operand::LiteralF64(_) => Option::Some(VarType::F64),
        }
    }
}

/// The four arithmetic operators.
#[derive(Clone, Copy, Debug, PartialEq, Eq, Structural)]
pub enum Operator {
    Add,
    Sub,
    Mul,
    Div,
}

/// The comparison and logical operators of conditional expressions.
#[derive(Clone, Copy, Debug, PartialEq, Eq, Structural)]
pub enum Condition {
    LessThan,
    GreaterThan,
    LessThanOrEqual,
    GreaterThanOrEqual,
    Equal,
    NotEqual,
    And,
    Or,
}

/// A binary operation with its resolved result type.
#[derive(Clone, Debug, PartialEq)]
pub enum BinaryOperation {
    Arithmetic { lhs: Operand, operator: Operator, rhs: Operand, operation_type: VarType },
    Conditional { lhs: Operand, condition: Condition, rhs: Operand, operation_type: VarType },
}

impl BinaryOperation {
    /// The resolved type carried by the operation.
    pub open spec fn spec_operation_type(self) -> VarType {
        match self {
            BinaryOperation::Arithmetic { operation_type, .. } => operation_type,
            BinaryOperation::Conditional { operation_type, .. } => operation_type,
        }
    }

    /// Conditional operations must carry the type `bool`.
    pub open spec fn wf(self) -> bool {
        match self {
            BinaryOperation::Arithmetic { .. } => true,
            BinaryOperation::Conditional { operation_type, .. } => operation_type
                == VarType::Bool,
        }
    }
}

/// A call to a user-defined or built-in function.
#[derive(Clone, Debug, PartialEq)]
pub struct FunctionCall {
    pub name: String,
    pub params: Vec<Operand>,
    pub return_type: VarType,
    pub location: Span,
}

/// An expression: an operand, a binary operation, or a function call.
#[derive(Clone, Debug, PartialEq)]
pub enum Expr {
    BinaryOperation(BinaryOperation),
    FunctionCall(FunctionCall),
    Operand(Operand),
}

impl Expr {
    /// Every conditional operation inside carries the type `bool`.
    pub open spec fn wf(self) -> bool {
        match self {
            Expr::BinaryOperation(b) => b.wf(),
            Expr::FunctionCall(_) => true,
            Expr::Operand(_) => true,
        }
    }
}

/// A typed variable declaration together with its initializer.
#[derive(Clone, Debug, PartialEq)]
pub struct Variable {
    pub var_type: VarType,
    pub name: String,
    pub value: Expr,
    pub location: Span,
}

/// A named argument of a function definition.
#[derive(Clone, Debug, PartialEq)]
pub struct Argument {
    pub name: String,
    pub var_type: VarType,
}

/// The declared result of a function.
#[derive(Clone, Debug, PartialEq)]
pub struct Return {
    pub var_type: VarType,
}

/// A function definition (or a built-in function's signature).
#[derive(Debug)]
pub struct Function {
    pub name: String,
    pub location: Span,
    pub args: Vec<Argument>,
    pub body: Vec<Statement>,
    pub return_type: VarType,
    pub is_builtin: bool,
}

/// A statement of the source language.
#[derive(Debug)]
pub enum Statement {
    VariableDeclaration(Variable),
    ConditionalJump { condition: Expr, label: String, location: Span },
    UnconditionalJump { label: String, location: Span },
    Label { name: String, location: Span },
    FunctionDefinition(Function),
    Store { at: Operand, from: Operand, location: Span },
    Call(FunctionCall),
    NoOperation,
}

impl Statement {
    /// Every conditional operation in the statement (function bodies
    /// included) carries the type `bool`.
    pub open spec fn wf(self) -> bool
        decreases self,
    {
        match self {
            Statement::VariableDeclaration(v) => v.value.wf(),
            Statement::ConditionalJump { condition, .. } => condition.wf(),
            Statement::FunctionDefinition(f) => stmts_wf(f.body@),
            _ => true,
        }
    }
}

/// `Statement::wf`, over a whole sequence of statements.
pub open spec fn stmts_wf(ss: Seq<Statement>) -> bool
    decreases ss,
{
    if ss.len() == 0 {
        true
    } else {
        ss[0].wf() && stmts_wf(ss.drop_first())
    }
}

/// `stmts_wf` holds exactly when each statement is well formed.
pub proof fn lemma_stmts_wf_each(ss: Seq<Statement>)
    ensures
        stmts_wf(ss) <==> (forall|i: int| 0 <= i < ss.len() ==> (#[trigger] ss[i]).wf()),
    decreases ss.len(),
{
    if ss.len() > 0 {
        lemma_stmts_wf_each(ss.drop_first());
        assert forall|i: int| 0 <= i < ss.len() && stmts_wf(ss) implies (#[trigger] ss[i]).wf() by {
            if i > 0 {
                assert(ss.drop_first()[i - 1] == ss[i]);
            }
        }
        if forall|i: int| 0 <= i < ss.len() ==> (#[trigger] ss[i]).wf() {
            assert forall|i: int| 0 <= i < ss.drop_first().len() implies (#[trigger] ss.drop_first()[i]).wf() by {
                assert(ss.drop_first()[i] == ss[i + 1]);
            }
        }
    }
}


/// The message of an unknown-variable diagnostic.
pub open spec fn unknown_variable_message(name: Seq<char>) -> Seq<char> {
    "unknown variable `"@ + name + "`"@
}

impl Operand {
    /// The type this operand denotes under a context: literals carry
    /// their own type, identifiers are looked up, an unknown identifier
    /// is an `UnknownVariable` error pointing at `loc`.
    pub fn get_type(&self, context: &Context, loc: Span) -> (r: Result<VarType, LexicalError>)
        requires
            context.wf(),
        ensures
            match r {
                Result::Ok(t) => match self.spec_literal_type() {
                    Option::Some(lt) => t == lt,
                    Option::None => context.spec_variable_type(
                        self->Identifier_0@,
                    ) == Option::Some(t),
                },
                Result::Err(e) => self is Identifier && context.spec_variable_type(
                    self->Identifier_0@,
                ) is None && match e {
                    LexicalError::UnknownVariable { error, help } => error@.len() == 1
                        && error@[0].location == loc && error@[0].message@
                        == unknown_variable_message(self->Identifier_0@) && help is None,
                    _ => false,
                },
            },
    {
        match self {
            Operand::Identifier(variable_name) => {
                match context.get_variable(variable_name.clone()) {
                    Option::Some(var) => Result::Ok(var.var_type),
                    Option::None => {
                        let message = concat3(
                            "unknown variable `",
                            variable_name.as_str(),
                            "`",
                        );
                        let mut error: Vec<ErrorTip> = Vec::new();
                        error.push(ErrorTip { message, location: loc });
                        Result::Err(
                            LexicalError::UnknownVariable { error, help: Option::None },
                        )
                    },
                }
            },
            Operand::Dereference(_) => Result::Ok(VarType::Ptr),
            Operand::LiteralStr(_) => Result::Ok(VarType::Str),
            Operand::LiteralBool(_) => Result::Ok(VarType::Bool),
            Operand::LiteralI8(_) => Result::Ok(VarType::I8),
            Operand::LiteralI16(_) => Result::Ok(VarType::I16),
            Operand::LiteralI32(_) => Result::Ok(VarType::I32),
            Operand::LiteralI64(_) => Result::Ok(VarType::I64),
            Operand::LiteralU8(_) => Result::Ok(VarType::U8),
            Operand::LiteralU16(_) => Result::Ok(VarType::U16),
            Operand::LiteralU32(_) => Result::Ok(VarType::U32),
            Operand::LiteralU64(_) => Result::Ok(VarType::U64),
            Operand::LiteralF32(_) => Result::Ok(VarType::F32),
            Operand::LiteralF64(_) => Result::Ok(VarType::F64),
        }
    }
}

/// The type of an expression under a context: binary operations and
/// calls carry their resolved type, operands denote their own.
pub open spec fn expr_spec_type(e: Expr, ctx: Context) -> Option<VarType> {
    match e {
        Expr::Operand(op) => match op.spec_literal_type() {
            Option::Some(t) => Option::Some(t),
            Option::None => ctx.spec_variable_type(op->Identifier_0@),
        },
        Expr::BinaryOperation(b) => Option::Some(b.spec_operation_type()),
        Expr::FunctionCall(fc) => Option::Some(fc.return_type),
    }
}

/// Appending a well-formed statement keeps a statement list well
/// formed.
pub proof fn lemma_stmts_wf_push(ss: Seq<Statement>, s: Statement)
    requires
        stmts_wf(ss),
        s.wf(),
    ensures
        stmts_wf(ss.push(s)),
{
    lemma_stmts_wf_each(ss);
    lemma_stmts_wf_each(ss.push(s));
    assert(forall|i: int| 0 <= i < ss.len() ==> ss.push(s)[i] == ss[i]);
    assert(ss.push(s)[ss.len() as int] == s);
}

} // verus!
