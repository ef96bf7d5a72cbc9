//! The parser: reduces the token stream to a list of statements,
//! resolving identifiers and checking types against a `Context` as it
//! goes.

use vstd::prelude::*;
use vstd::string::*;

use crate::ast::context::{
    builtin_arg_types, builtin_return_type, is_builtin_name, lookup_function, Context,
};
use crate::ast::{
    expr_spec_type, stmts_wf, Argument, BinaryOperation, Condition, Expr, Function, FunctionCall,
    Operand, Operator, Span, Statement, VarType, Variable,
};
use crate::lexer::tokens::Token;
use crate::lexer::{ErrorTip, Lexer, LexicalError, SpannedToken};
use crate::numerals::append_dec;
use crate::text::{concat3, concat5, str_eq};
use crate::derivation::{
    call_from, condition_from, expr_from, expr_token_len, lemma_stmts_from_push, operand_from,
    operator_from, simple_expr_from, stmt_from, stmt_token_len, stmts_from, stmts_token_len,
};
use crate::typecheck::{
    args_scope, bind_var, env_of, funcs_sig, initial_env, lemma_call_typed, lemma_expr_type,
    lemma_funcs_sig, lemma_operand_type, lemma_stmts_typed_push, scope_model, scopes_model,
    stmt_typed, stmts_typed, FuncSig, TypeEnv,
};

verus! {

/// A parse failure: a token no rule accepts, an early end of input, or
/// a semantic error raised while a rule was reduced.
#[derive(Debug)]
pub enum ParseError {
    InvalidToken { location: usize },
    UnrecognizedToken { start: usize, end: usize, expected: Vec<String> },
    UnrecognizedEof { expected: Vec<String> },
    User { error: LexicalError },
}

/// The argument types and return type a call to `name` resolves to:
/// built-ins take priority, then the user-defined function table.
pub open spec fn spec_resolved_sig(ctx: Context, name: Seq<char>) -> Option<
    (Seq<VarType>, VarType),
> {
    if is_builtin_name(name) {
        Option::Some((builtin_arg_types(name), builtin_return_type(name)))
    } else {
        match lookup_function(ctx.functions@, name) {
            Option::Some(g) => Option::Some(
                (g.args@.map(|i: int, a: Argument| a.var_type), g.return_type),
            ),
            Option::None => Option::None,
        }
    }
}

/// The type an operand denotes under a context, if any.
pub open spec fn operand_spec_type(op: Operand, ctx: Context) -> Option<VarType> {
    match op.spec_literal_type() {
        Option::Some(t) => Option::Some(t),
        Option::None => ctx.spec_variable_type(op->Identifier_0@),
    }
}

/// A call is consistent with the context: the callee resolves, the
/// argument count matches its arity, every argument has the declared
/// parameter type, and the recorded return type is the callee's.
pub open spec fn call_checked(fc: FunctionCall, ctx: Context) -> bool {
    match spec_resolved_sig(ctx, fc.name@) {
        Option::Some((arg_types, ret)) => {
            &&& fc.params@.len() == arg_types.len()
            &&& (forall|i: int|
                0 <= i < arg_types.len() ==> operand_spec_type(
                    #[trigger] fc.params@[i],
                    ctx,
                ) == Option::Some(arg_types[i]))
            &&& fc.return_type == ret
        },
        Option::None => false,
    }
}

/// The type a literal token denotes, if it is a literal.
pub open spec fn literal_token_type(tok: Token) -> Option<VarType> {
    match tok {
        Token::LiteralTrue => Option::Some(VarType::Bool),
        Token::LiteralFalse => Option::Some(VarType::Bool),
        Token::LiteralString(_) => Option::Some(VarType::Str),
        Token::LiteralI8(_) => Option::Some(VarType::I8),
        Token::LiteralI16(_) => Option::Some(VarType::I16),
        Token::LiteralI32(_) => Option::Some(VarType::I32),
        Token::LiteralI64(_) => Option::Some(VarType::I64),
        Token::LiteralU8(_) => Option::Some(VarType::U8),
        Token::LiteralU16(_) => Option::Some(VarType::U16),
        Token::LiteralU32(_) => Option::Some(VarType::U32),
        Token::LiteralU64(_) => Option::Some(VarType::U64),
        Token::LiteralF32(_) => Option::Some(VarType::F32),
        Token::LiteralF64(_) => Option::Some(VarType::F64),
        _ => Option::None,
    }
}

pub open spec fn is_operator_token(tok: Token) -> bool {
    tok is Add || tok is Sub || tok is Mul || tok is Div
}

pub open spec fn is_condition_token(tok: Token) -> bool {
    tok is LessThan || tok is GreaterThan || tok is LessThanOrEqual || tok is GreaterThanOrEqual
        || tok is Equal || tok is NotEqual || tok is And || tok is Or
}

/// A token stream of plain statements: `goto` jumps, labels, and
/// declarations initialized with a literal of the declared type. On
/// such a stream parsing is proven total: it always returns `Ok`.
pub open spec fn plain_statements(toks: Seq<SpannedToken>, pos: int) -> bool
    decreases toks.len() - pos,
{
    if pos >= toks.len() {
        true
    } else {
        ||| (toks.len() - pos >= 2 && toks[pos].token is Goto && toks[pos + 1].token is Identifier
            && plain_statements(toks, pos + 2))
        ||| (toks.len() - pos >= 2 && toks[pos].token is Identifier && toks[pos + 1].token
            is Colon && (toks.len() - pos == 2 || !(toks[pos + 2].token is Type))
            && plain_statements(toks, pos + 2))
        ||| (toks.len() - pos >= 5 && toks[pos].token is Identifier && toks[pos + 1].token
            is Colon && (toks[pos + 2].token matches Token::Type(tt)
            && literal_token_type(toks[pos + 4].token) == crate::ast::type_of_text(tt@)
            && literal_token_type(toks[pos + 4].token) is Some) && toks[pos + 3].token is Assign
            && plain_statements(toks, pos + 5))
    }
}

// ---------------------------------------------------------------------
// Error constructors
// ---------------------------------------------------------------------

/// One labelled message at a source range.
fn one_tip(message: String, loc: Span) -> (r: Vec<ErrorTip>)
    ensures
        r@.len() == 1,
        r@[0].message == message,
        r@[0].location == loc,
{
    let mut v: Vec<ErrorTip> = Vec::new();
    v.push(ErrorTip { message, location: loc });
    v
}

/// A `WrongType` error naming the expected and the found type.
fn wrong_type_err(expected: &str, found: &str, loc: Span) -> (r: LexicalError)
    ensures
        match r {
            LexicalError::WrongType { error, help } => error@.len() == 1 && error@[0].location
                == loc && error@[0].message@ == "expected type `"@ + expected@
                + "`, but found type `"@ + found@ + "`"@ && help is None,
            _ => false,
        },
{
    let message = concat5("expected type `", expected, "`, but found type `", found, "`");
    LexicalError::WrongType { error: one_tip(message, loc), help: Option::None }
}

/// An `UnknownFunction` error naming the callee.
fn unknown_function_err(name: &str, loc: Span) -> (r: LexicalError)
    ensures
        r is UnknownFunction,
{
    let message = concat3("unknown function `", name, "`");
    LexicalError::UnknownFunction { error: one_tip(message, loc), help: Option::None }
}

/// A `WrongArgumentCount` error naming the expected and the found count.
fn wrong_count_err(expected: usize, found: usize, loc: Span) -> (r: LexicalError)
    ensures
        r is WrongArgumentCount,
{
    let mut message = String::from_str("expected ");
    append_dec(&mut message, expected as u64);
    message.append(" arguments, but found ");
    append_dec(&mut message, found as u64);
    LexicalError::WrongArgumentCount { error: one_tip(message, loc), help: Option::None }
}

/// A `FunctionIsBuiltin` error for a definition that reuses a built-in
/// function's name.
fn builtin_name_err(name: &str, loc: Span) -> (r: LexicalError)
    ensures
        r is FunctionIsBuiltin,
{
    let message = concat3("function `", name, "` is a built-in function");
    LexicalError::FunctionIsBuiltin { error: one_tip(message, loc), help: Option::None }
}

/// A `FunctionIsBuiltin` error carrying the function table's own
/// message, used for duplicate definitions.
fn function_table_err(message: String, loc: Span) -> (r: LexicalError)
    ensures
        r is FunctionIsBuiltin,
{
    LexicalError::FunctionIsBuiltin { error: one_tip(message, loc), help: Option::None }
}

/// An `UnusedValue` error for a call statement whose result is dropped.
fn unused_value_err(found: &str, loc: Span) -> (r: LexicalError)
    ensures
        r is UnusedValue,
{
    let message = concat3("unused value of type `", found, "`");
    LexicalError::UnusedValue { error: one_tip(message, loc), help: Option::None }
}

/// The `expected one of` list of an `UnrecognizedToken` diagnostic.
fn expected1(a: &str) -> (r: Vec<String>)
    ensures
        r@.len() == 1,
{
    let mut v: Vec<String> = Vec::new();
    v.push(String::from_str(a));
    v
}

fn expected2(a: &str, b: &str) -> (r: Vec<String>)
    ensures
        r@.len() == 2,
{
    let mut v: Vec<String> = Vec::new();
    v.push(String::from_str(a));
    v.push(String::from_str(b));
    v
}

fn unrecognized(tok: &SpannedToken, expected: Vec<String>) -> ParseError {
    ParseError::UnrecognizedToken { start: tok.start, end: tok.end, expected }
}

// ---------------------------------------------------------------------
// Operands and expressions
// ---------------------------------------------------------------------

/// Turns one token into an operand, if it is operand-shaped.
fn token_operand(tok: &SpannedToken) -> (r: Option<Operand>)
    ensures
        literal_token_type(tok.token) matches Option::Some(t) ==> (r matches Option::Some(op)
            && op.spec_literal_type() == Option::Some(t)),
        r matches Option::Some(op) ==> operand_from(tok.token, op),
{
    match &tok.token {
        Token::Identifier(name) => Option::Some(Operand::Identifier(name.clone())),
        Token::Dereference(name) => Option::Some(Operand::Dereference(name.clone())),
        Token::LiteralString(v) => Option::Some(Operand::LiteralStr(v.clone())),
        Token::LiteralTrue => Option::Some(Operand::LiteralBool(true)),
        Token::LiteralFalse => Option::Some(Operand::LiteralBool(false)),
        Token::LiteralI8(v) => Option::Some(Operand::LiteralI8(*v)),
        Token::LiteralI16(v) => Option::Some(Operand::LiteralI16(*v)),
        Token::LiteralI32(v) => Option::Some(Operand::LiteralI32(*v)),
        Token::LiteralI64(v) => Option::Some(Operand::LiteralI64(*v)),
        Token::LiteralU8(v) => Option::Some(Operand::LiteralU8(*v)),
        Token::LiteralU16(v) => Option::Some(Operand::LiteralU16(*v)),
        Token::LiteralU32(v) => Option::Some(Operand::LiteralU32(*v)),
        Token::LiteralU64(v) => Option::Some(Operand::LiteralU64(*v)),
        Token::LiteralF32(v) => Option::Some(Operand::LiteralF32(v.clone())),
        Token::LiteralF64(v) => Option::Some(Operand::LiteralF64(v.clone())),
        _ => Option::None,
    }
}

/// The binary operator a token stands for, if any.
fn token_operator(tok: &SpannedToken) -> (r: Option<Operator>)
    ensures
        r is Some <==> is_operator_token(tok.token),
        r matches Option::Some(o) ==> operator_from(tok.token, o),
{
    match &tok.token {
        Token::Add => Option::Some(Operator::Add),
        Token::Sub => Option::Some(Operator::Sub),
        Token::Mul => Option::Some(Operator::Mul),
        Token::Div => Option::Some(Operator::Div),
        _ => Option::None,
    }
}

/// The comparison or logical operator a token stands for, if any.
fn token_condition(tok: &SpannedToken) -> (r: Option<Condition>)
    ensures
        r is Some <==> is_condition_token(tok.token),
        r matches Option::Some(c) ==> condition_from(tok.token, c),
{
    match &tok.token {
        Token::LessThan => Option::Some(Condition::LessThan),
        Token::GreaterThan => Option::Some(Condition::GreaterThan),
        Token::LessThanOrEqual => Option::Some(Condition::LessThanOrEqual),
        Token::GreaterThanOrEqual => Option::Some(Condition::GreaterThanOrEqual),
        Token::Equal => Option::Some(Condition::Equal),
        Token::NotEqual => Option::Some(Condition::NotEqual),
        Token::And => Option::Some(Condition::And),
        Token::Or => Option::Some(Condition::Or),
        _ => Option::None,
    }
}

/// Parses one operand and resolves its type.
fn parse_operand(toks: &Vec<SpannedToken>, pos: usize, context: &Context) -> (r: Result<
    (Operand, VarType, Span, usize),
    ParseError,
>)
    requires
        context.wf(),
        pos < toks@.len(),
    ensures
        match r {
            Result::Ok(q) => q.3 == pos + 1 && operand_spec_type(q.0, *context) == Option::Some(
                q.1,
            ),
            Result::Err(_) => true,
        },
        literal_token_type(toks@[pos as int].token) matches Option::Some(lt) ==> (r
            matches Result::Ok(q) && q.1 == lt),
        r matches Result::Ok(q) ==> operand_from(toks@[pos as int].token, q.0),
{
    let n = toks.len();
    let tok = &toks[pos];
    let span = Span { start: tok.start, end: tok.end };
    match token_operand(tok) {
        Option::Some(op) => match op.get_type(context, span) {
            Result::Ok(t) => Result::Ok((op, t, span, pos + 1)),
            Result::Err(e) => Result::Err(ParseError::User { error: e }),
        },
        Option::None => Result::Err(unrecognized(tok, expected1("an operand"))),
    }
}

/// Parses an operand expression or a binary operation of two operands,
/// resolving and checking types.
fn parse_simple_expr(toks: &Vec<SpannedToken>, pos: usize, context: &Context) -> (r: Result<
    (Expr, VarType, usize),
    ParseError,
>)
    requires
        context.wf(),
        pos < toks@.len(),
    ensures
        match r {
            Result::Ok(q) => pos < q.2 <= toks@.len() && q.0.wf() && expr_spec_type(q.0, *context)
                == Option::Some(q.1) && !(q.0 is FunctionCall),
            Result::Err(_) => true,
        },
        literal_token_type(toks@[pos as int].token) matches Option::Some(lt) ==> ((pos + 1
            == toks@.len() || (!is_operator_token(toks@[pos + 1].token) && !is_condition_token(
            toks@[pos + 1].token,
        ))) ==> (r matches Result::Ok(q) && q.1 == lt && q.2 == pos + 1)),
        r matches Result::Ok(q) ==> (simple_expr_from(toks@, pos as int, env_of(*context), q.0, q.1)
            && q.2 == pos + expr_token_len(q.0)),
{
    let (lhs, lhs_t, lhs_span, p) = match parse_operand(toks, pos, context) {
        Result::Ok(q) => q,
        Result::Err(e) => {
            return Result::Err(e);
        },
    };
    if p >= toks.len() {
        proof {
            lemma_operand_type(lhs, *context);
        }
        return Result::Ok((Expr::Operand(lhs), lhs_t, p));
    }
    if let Option::Some(operator) = token_operator(&toks[p]) {
        if toks.len() - p <= 1 {
            return Result::Err(ParseError::UnrecognizedEof { expected: expected1("an operand") });
        }
        let (rhs, rhs_t, rhs_span, p2) = match parse_operand(toks, p + 1, context) {
            Result::Ok(q) => q,
            Result::Err(e) => {
                return Result::Err(e);
            },
        };
        if lhs_t != rhs_t {
            return Result::Err(
                ParseError::User {
                    error: wrong_type_err(lhs_t.as_text(), rhs_t.as_text(), rhs_span),
                },
            );
        }
        proof {
            lemma_operand_type(lhs, *context);
            lemma_operand_type(rhs, *context);
        }
        return Result::Ok(
            (
                Expr::BinaryOperation(
                    BinaryOperation::Arithmetic { lhs, operator, rhs, operation_type: lhs_t },
                ),
                lhs_t,
                p2,
            ),
        );
    }
    if let Option::Some(condition) = token_condition(&toks[p]) {
        if toks.len() - p <= 1 {
            return Result::Err(ParseError::UnrecognizedEof { expected: expected1("an operand") });
        }
        let (rhs, rhs_t, rhs_span, p2) = match parse_operand(toks, p + 1, context) {
            Result::Ok(q) => q,
            Result::Err(e) => {
                return Result::Err(e);
            },
        };
        if lhs_t != rhs_t {
            return Result::Err(
                ParseError::User {
                    error: wrong_type_err(lhs_t.as_text(), rhs_t.as_text(), rhs_span),
                },
            );
        }
        proof {
            lemma_operand_type(lhs, *context);
            lemma_operand_type(rhs, *context);
        }
        return Result::Ok(
            (
                Expr::BinaryOperation(
                    BinaryOperation::Conditional {
                        lhs,
                        condition,
                        rhs,
                        operation_type: VarType::Bool,
                    },
                ),
                VarType::Bool,
                p2,
            ),
        );
    }
    proof {
        lemma_operand_type(lhs, *context);
    }
    Result::Ok((Expr::Operand(lhs), lhs_t, p))
}

/// Parses a call `name(arg …)` and checks it against the callee's
/// signature: the callee must exist, the argument count must match its
/// arity, and every argument must have the declared parameter type.
fn parse_call(toks: &Vec<SpannedToken>, pos: usize, context: &Context) -> (r: Result<
    (FunctionCall, usize),
    ParseError,
>)
    requires
        context.wf(),
        pos + 1 < toks@.len(),
        toks@[pos as int].token is Identifier,
        toks@[pos + 1].token is OpenParen,
    ensures
        match r {
            Result::Ok(q) => pos < q.1 <= toks@.len() && call_checked(q.0, *context)
                && q.0.name@ == toks@[pos as int].token->Identifier_0@,
            Result::Err(_) => true,
        },
        r matches Result::Ok(q) ==> (call_from(toks@, pos as int, env_of(*context), q.0) && q.1
            == pos + 3 + q.0.params@.len()),
{
    let n = toks.len();
    let name_tok = &toks[pos];
    let name = match &name_tok.token {
        Token::Identifier(n) => n.clone(),
        _ => vstd::pervasive::unreached(),
    };
    let name_span = Span { start: name_tok.start, end: name_tok.end };
    let callee = match context.get_function(name.as_str()) {
        Option::Some(f) => f,
        Option::None => {
            return Result::Err(
                ParseError::User { error: unknown_function_err(name.as_str(), name_span) },
            );
        },
    };
    let ghost sig = spec_resolved_sig(*context, name@).unwrap();
    proof {
        assert(callee.args@.len() == sig.0.len());
        assert(forall|i: int|
            0 <= i < sig.0.len() ==> (#[trigger] callee.args@[i]).var_type == sig.0[i]);
        assert(callee.return_type == sig.1);
    }
    let mut params: Vec<Operand> = Vec::new();
    let mut p: usize = pos + 2;
    loop
        invariant_except_break
            p == pos + 2 + params@.len(),
        invariant
            context.wf(),
            pos + 2 <= p <= toks@.len(),
            forall|j: int|
                0 <= j < params@.len() ==> operand_from(
                    toks@[pos + 2 + j].token,
                    #[trigger] params@[j],
                ),
            callee.args@.len() == sig.0.len(),
            forall|i: int|
                0 <= i < sig.0.len() ==> (#[trigger] callee.args@[i]).var_type == sig.0[i],
            forall|i: int|
                0 <= i < params@.len() && i < sig.0.len() ==> operand_spec_type(
                    #[trigger] params@[i],
                    *context,
                ) == Option::Some(sig.0[i]),
        ensures
            p == pos + 3 + params@.len(),
            p <= toks@.len(),
            toks@[p - 1].token is CloseParen,
        decreases toks@.len() - p,
    {
        if p >= toks.len() {
            return Result::Err(ParseError::UnrecognizedEof { expected: expected1(")") });
        }
        if let Token::CloseParen = &toks[p].token {
            p = p + 1;
            break;
        }
        let (op, op_t, op_span, p2) = match parse_operand(toks, p, context) {
            Result::Ok(q) => q,
            Result::Err(e) => {
                return Result::Err(e);
            },
        };
        if params.len() < callee.args.len() {
            let want = callee.args[params.len()].var_type;
            if op_t != want {
                return Result::Err(
                    ParseError::User {
                        error: wrong_type_err(want.as_text(), op_t.as_text(), op_span),
                    },
                );
            }
        }
        params.push(op);
        p = p2;
    }
    if params.len() != callee.args.len() {
        return Result::Err(
            ParseError::User {
                error: wrong_count_err(callee.args.len(), params.len(), name_span),
            },
        );
    }
    let location = Span { start: name_tok.start, end: toks[p - 1].end };
    let fc = FunctionCall { name, params, return_type: callee.return_type, location };
    proof {
        lemma_call_typed(fc, *context);
    }
    Result::Ok((fc, p))
}

/// Parses an initializer expression: a call, or a simple expression.
fn parse_expr(toks: &Vec<SpannedToken>, pos: usize, context: &Context) -> (r: Result<
    (Expr, VarType, usize),
    ParseError,
>)
    requires
        context.wf(),
        pos < toks@.len(),
    ensures
        match r {
            Result::Ok(q) => pos < q.2 <= toks@.len() && q.0.wf() && expr_spec_type(q.0, *context)
                == Option::Some(q.1) && (q.0 matches Expr::FunctionCall(fc) ==> call_checked(
                fc,
                *context,
            )),
            Result::Err(_) => true,
        },
        literal_token_type(toks@[pos as int].token) matches Option::Some(lt) ==> ((pos + 1
            == toks@.len() || (!is_operator_token(toks@[pos + 1].token) && !is_condition_token(
            toks@[pos + 1].token,
        ))) ==> (r matches Result::Ok(q) && q.1 == lt && q.2 == pos + 1)),
        r matches Result::Ok(q) ==> (expr_from(toks@, pos as int, env_of(*context), q.0, q.1)
            && q.2 == pos + expr_token_len(q.0)),
{
    if toks.len() - pos > 1 {
        let is_call = match (&toks[pos].token, &toks[pos + 1].token) {
            (Token::Identifier(_), Token::OpenParen) => true,
            _ => false,
        };
        if is_call {
            let (fc, p) = match parse_call(toks, pos, context) {
                Result::Ok(q) => q,
                Result::Err(e) => {
                    return Result::Err(e);
                },
            };
            let rt = fc.return_type;
            return Result::Ok((Expr::FunctionCall(fc), rt, p));
        }
    }
    parse_simple_expr(toks, pos, context)
}


// ---------------------------------------------------------------------
// Statements
// ---------------------------------------------------------------------

/// A copy of an argument list, element for element.
fn clone_args(args: &Vec<Argument>) -> (r: Vec<Argument>)
    ensures
        r@.len() == args@.len(),
        forall|i: int|
            0 <= i < r@.len() ==> (#[trigger] r@[i]).var_type == args@[i].var_type && r@[i].name@
                == args@[i].name@,
{
    let mut out: Vec<Argument> = Vec::new();
    let mut i: usize = 0;
    while i < args.len()
        invariant
            i <= args@.len(),
            out@.len() == i,
            forall|k: int|
                0 <= k < i ==> (#[trigger] out@[k]).var_type == args@[k].var_type && out@[k].name@
                    == args@[k].name@,
        decreases args@.len() - i,
    {
        out.push(Argument { name: args[i].name.clone(), var_type: args[i].var_type });
        i = i + 1;
    }
    out
}

/// Whether a name is one of the four built-in functions.
fn is_builtin_function_name(name: &str) -> (r: bool)
    ensures
        r == is_builtin_name(name@),
{
    str_eq(name, "write_string") || str_eq(name, "write_int") || str_eq(name, "read_int")
        || str_eq(name, "read_string")
}

/// Parses one statement starting at `pos`.
///
/// A parsed declaration provably initializes at the declared type; a
/// parsed call statement provably matches its callee's arity and
/// parameter types and returns `void`; every conditional operation in
/// the parsed statement carries `bool`.
fn parse_statement(toks: &Vec<SpannedToken>, pos: usize, context: &mut Context) -> (r: Result<
    (Statement, usize),
    ParseError,
>)
    requires
        old(context).wf(),
        pos < toks@.len(),
    ensures
        final(context).wf(),
        match r {
            Result::Ok(q) => pos < q.1 <= toks@.len() && q.0.wf() && final(context).scope_level
                == old(context).scope_level && stmt_typed(q.0, env_of(*old(context)))
                == Option::Some(env_of(*final(context))) && (q.0 is VariableDeclaration
                ==> expr_spec_type(
                q.0->VariableDeclaration_0.value,
                *old(context),
            ) == Option::Some(q.0->VariableDeclaration_0.var_type)) && (q.0 is Call
                ==> call_checked(q.0->Call_0, *old(context)) && q.0->Call_0.return_type
                == VarType::Void),
            Result::Err(_) => true,
        },
        plain_statements(toks@, pos as int) ==> (r matches Result::Ok(q) && plain_statements(
            toks@,
            q.1 as int,
        )),
        r matches Result::Ok(q) ==> (stmt_from(toks@, pos as int, env_of(*old(context)), q.0)
            && q.1 == pos + stmt_token_len(q.0)),
    decreases toks@.len() - pos, 1nat,
{
    let n = toks.len();
    let start = toks[pos].start;
    let is_identifier = matches!(toks[pos].token, Token::Identifier(_));
    if is_identifier {
        let name = match &toks[pos].token {
            Token::Identifier(m) => m.clone(),
            _ => vstd::pervasive::unreached(),
        };
        if n - pos <= 1 {
            return Result::Err(ParseError::UnrecognizedEof { expected: expected2(":", "(") });
        }
        let second_colon = matches!(toks[pos + 1].token, Token::Colon);
        if second_colon {
            // declaration `name: type = expr`, or label `name:`
            if n - pos > 2 {
                let type_text = match &toks[pos + 2].token {
                    Token::Type(t) => Option::Some(t.clone()),
                    _ => Option::None,
                };
                if let Option::Some(t) = type_text {
                    let vt = match VarType::from_text(t.as_str()) {
                        Option::Some(vt) => vt,
                        Option::None => {
                            return Result::Err(
                                unrecognized(&toks[pos + 2], expected1("a type")),
                            );
                        },
                    };
                    proof {
                        if plain_statements(toks@, pos as int) && toks@.len() - pos >= 5 {
                            if pos + 5 < toks@.len() && plain_statements(toks@, pos + 5) {
                                assert(toks@[pos + 5].token is Goto || toks@[pos + 5].token
                                    is Identifier);
                            }
                        }
                    }
                    if n - pos <= 3 {
                        return Result::Err(
                            ParseError::UnrecognizedEof { expected: expected1("=") },
                        );
                    }
                    if !(matches!(toks[pos + 3].token, Token::Assign)) {
                        return Result::Err(unrecognized(&toks[pos + 3], expected1("=")));
                    }
                    if n - pos <= 4 {
                        return Result::Err(
                            ParseError::UnrecognizedEof { expected: expected1("an expression") },
                        );
                    }
                    let (value, found_t, p) = match parse_expr(toks, pos + 4, context) {
                        Result::Ok(q) => q,
                        Result::Err(e) => {
                            return Result::Err(e);
                        },
                    };
                    let value_span = Span { start: toks[pos + 4].start, end: toks[p - 1].end };
                    if found_t != vt {
                        return Result::Err(
                            ParseError::User {
                                error: wrong_type_err(
                                    vt.as_text(),
                                    found_t.as_text(),
                                    value_span,
                                ),
                            },
                        );
                    }
                    let location = Span { start, end: toks[p - 1].end };
                    proof {
                        lemma_expr_type(value, *old(context));
                        match &value {
                            Expr::FunctionCall(fc) => lemma_call_typed(*fc, *old(context)),
                            _ => (),
                        }
                    }
                    context.add_variable(
                        Statement::VariableDeclaration(
                            Variable {
                                var_type: vt,
                                name: name.clone(),
                                value: Expr::Operand(Operand::Identifier(name.clone())),
                                location,
                            },
                        ),
                    );
                    proof {
                        let e0 = env_of(*old(context));
                        assert(scope_model(context.variables@.last()@) =~= scope_model(
                            old(context).variables@.last()@,
                        ).push((name@, vt)));
                        assert(env_of(*context).scopes =~~= bind_var(e0, name@, vt).scopes);
                        assert(env_of(*context).funcs =~~= bind_var(e0, name@, vt).funcs);
                        assert(env_of(*context) == bind_var(e0, name@, vt));
                    }
                    return Result::Ok(
                        (
                            Statement::VariableDeclaration(
                                Variable { var_type: vt, name, value, location },
                            ),
                            p,
                        ),
                    );
                }
            }
            // label definition `name:`
            let location = Span { start, end: toks[pos + 1].end };
            return Result::Ok((Statement::Label { name, location }, pos + 2));
        }
        if matches!(toks[pos + 1].token, Token::OpenParen) {
            // call statement `name(arg …)`
            let (fc, p) = match parse_call(toks, pos, context) {
                Result::Ok(q) => q,
                Result::Err(e) => {
                    return Result::Err(e);
                },
            };
            if !matches!(fc.return_type, VarType::Void) {
                return Result::Err(
                    ParseError::User {
                        error: unused_value_err(fc.return_type.as_text(), fc.location),
                    },
                );
            }
            proof {
                lemma_call_typed(fc, *old(context));
            }
            return Result::Ok((Statement::Call(fc), p));
        }
        return Result::Err(unrecognized(&toks[pos + 1], expected2(":", "(")));
    }
    if matches!(toks[pos].token, Token::If) {
        if n - pos <= 1 {
            return Result::Err(
                ParseError::UnrecognizedEof { expected: expected1("an expression") },
            );
        }
        let (condition, _cond_t, p) = match parse_simple_expr(toks, pos + 1, context) {
            Result::Ok(q) => q,
            Result::Err(e) => {
                return Result::Err(e);
            },
        };
        if p >= n {
            return Result::Err(ParseError::UnrecognizedEof { expected: expected1("goto") });
        }
        if !(matches!(toks[p].token, Token::Goto)) {
            return Result::Err(unrecognized(&toks[p], expected1("goto")));
        }
        if n - p <= 1 {
            return Result::Err(ParseError::UnrecognizedEof { expected: expected1("a label") });
        }
        let label = match &toks[p + 1].token {
            Token::Identifier(l) => l.clone(),
            _ => {
                return Result::Err(unrecognized(&toks[p + 1], expected1("a label")));
            },
        };
        let location = Span { start, end: toks[p + 1].end };
        proof {
            assert(simple_expr_from(toks@, pos + 1, env_of(*old(context)), condition, _cond_t));
        }
        return Result::Ok((Statement::ConditionalJump { condition, label, location }, p + 2));
    }
    if matches!(toks[pos].token, Token::Goto) {
        if n - pos <= 1 {
            return Result::Err(ParseError::UnrecognizedEof { expected: expected1("a label") });
        }
        let label = match &toks[pos + 1].token {
            Token::Identifier(l) => l.clone(),
            _ => {
                return Result::Err(unrecognized(&toks[pos + 1], expected1("a label")));
            },
        };
        let location = Span { start, end: toks[pos + 1].end };
        return Result::Ok((Statement::UnconditionalJump { label, location }, pos + 2));
    }
    if matches!(toks[pos].token, Token::Store) {
        if n - pos <= 1 {
            return Result::Err(ParseError::UnrecognizedEof { expected: expected1("an operand") });
        }
        let (from, _from_t, _from_span, p) = match parse_operand(toks, pos + 1, context) {
            Result::Ok(q) => q,
            Result::Err(e) => {
                return Result::Err(e);
            },
        };
        if p >= n {
            return Result::Err(ParseError::UnrecognizedEof { expected: expected1("an operand") });
        }
        let (at, _at_t, _at_span, p2) = match parse_operand(toks, p, context) {
            Result::Ok(q) => q,
            Result::Err(e) => {
                return Result::Err(e);
            },
        };
        let location = Span { start, end: toks[p2 - 1].end };
        proof {
            lemma_operand_type(from, *old(context));
            lemma_operand_type(at, *old(context));
        }
        return Result::Ok((Statement::Store { at, from, location }, p2));
    }
    if matches!(toks[pos].token, Token::Function) {
        return parse_function(toks, pos, context);
    }
    Result::Err(unrecognized(&toks[pos], expected1("a statement")))
}

/// Parses a function definition
/// `func name(arg: type …): type begin … end`.
fn parse_function(toks: &Vec<SpannedToken>, pos: usize, context: &mut Context) -> (r: Result<
    (Statement, usize),
    ParseError,
>)
    requires
        old(context).wf(),
        pos < toks@.len(),
        toks@[pos as int].token is Function,
    ensures
        final(context).wf(),
        match r {
            Result::Ok(q) => pos < q.1 <= toks@.len() && q.0.wf() && final(context).scope_level
                == old(context).scope_level && stmt_typed(q.0, env_of(*old(context)))
                == Option::Some(env_of(*final(context))) && stmt_from(
                toks@,
                pos as int,
                env_of(*old(context)),
                q.0,
            ) && q.1 == pos + stmt_token_len(q.0) && !(q.0 is VariableDeclaration) && !(q.0
                is Call),
            Result::Err(_) => true,
        },
    decreases toks@.len() - pos, 0nat,
{
    let n = toks.len();
    let start = toks[pos].start;
    if n - pos <= 1 {
        return Result::Err(ParseError::UnrecognizedEof { expected: expected1("a function name") });
    }
    let name_tok = &toks[pos + 1];
    let name = match &name_tok.token {
        Token::Identifier(m) => m.clone(),
        _ => {
            return Result::Err(unrecognized(&toks[pos + 1], expected1("a function name")));
        },
    };
    let name_span = Span { start: name_tok.start, end: name_tok.end };
    if is_builtin_function_name(name.as_str()) {
        return Result::Err(
            ParseError::User { error: builtin_name_err(name.as_str(), name_span) },
        );
    }
    if n - pos <= 2 {
        return Result::Err(ParseError::UnrecognizedEof { expected: expected1("(") });
    }
    if !(matches!(toks[pos + 2].token, Token::OpenParen)) {
        return Result::Err(unrecognized(&toks[pos + 2], expected1("(")));
    }
    // arguments `name: type`, up to the closing parenthesis
    let mut args: Vec<Argument> = Vec::new();
    let mut p: usize = pos + 3;
    loop
        invariant_except_break
            p == pos + 3 + 3 * args@.len(),
        invariant
            context.wf(),
            *context == *old(context),
            pos + 3 <= p <= toks@.len(),
            n == toks@.len(),
            forall|j: int|
                0 <= j < args@.len() ==> ((toks@[pos + 3 + 3 * j].token matches Token::Identifier(
                    a,
                ) && (#[trigger] args@[j]).name@ == a@) && toks@[pos + 4 + 3 * j].token is Colon
                    && (toks@[pos + 5 + 3 * j].token matches Token::Type(tt)
                    && crate::ast::type_of_text(tt@) == Option::Some(args@[j].var_type))),
        ensures
            p == pos + 4 + 3 * args@.len(),
            p <= toks@.len(),
            toks@[p - 1].token is CloseParen,
            forall|j: int|
                0 <= j < args@.len() ==> ((toks@[pos + 3 + 3 * j].token matches Token::Identifier(
                    a,
                ) && (#[trigger] args@[j]).name@ == a@) && toks@[pos + 4 + 3 * j].token is Colon
                    && (toks@[pos + 5 + 3 * j].token matches Token::Type(tt)
                    && crate::ast::type_of_text(tt@) == Option::Some(args@[j].var_type))),
        decreases toks@.len() - p,
    {
        if p >= n {
            return Result::Err(ParseError::UnrecognizedEof { expected: expected1(")") });
        }
        if matches!(toks[p].token, Token::CloseParen) {
            p = p + 1;
            break;
        }
        let arg_name = match &toks[p].token {
            Token::Identifier(m) => m.clone(),
            _ => {
                return Result::Err(unrecognized(&toks[p], expected1("an argument name")));
            },
        };
        if n - p <= 1 {
            return Result::Err(ParseError::UnrecognizedEof { expected: expected1(":") });
        }
        if !(matches!(toks[p + 1].token, Token::Colon)) {
            return Result::Err(unrecognized(&toks[p + 1], expected1(":")));
        }
        if n - p <= 2 {
            return Result::Err(ParseError::UnrecognizedEof { expected: expected1("a type") });
        }
        let var_type = match &toks[p + 2].token {
            Token::Type(t) => match VarType::from_text(t.as_str()) {
                Option::Some(vt) => vt,
                Option::None => {
                    return Result::Err(unrecognized(&toks[p + 2], expected1("a type")));
                },
            },
            _ => {
                return Result::Err(unrecognized(&toks[p + 2], expected1("a type")));
            },
        };
        args.push(Argument { name: arg_name, var_type });
        p = p + 3;
    }
    // `: type begin`
    if p >= n {
        return Result::Err(ParseError::UnrecognizedEof { expected: expected1(":") });
    }
    if !(matches!(toks[p].token, Token::Colon)) {
        return Result::Err(unrecognized(&toks[p], expected1(":")));
    }
    if n - p <= 1 {
        return Result::Err(ParseError::UnrecognizedEof { expected: expected1("a return type") });
    }
    let return_type = match &toks[p + 1].token {
        Token::Type(t) => match VarType::from_text(t.as_str()) {
            Option::Some(vt) => vt,
            Option::None => {
                return Result::Err(unrecognized(&toks[p + 1], expected1("a return type")));
            },
        },
        Token::Identifier(w) => {
            if str_eq(w.as_str(), "void") {
                VarType::Void
            } else {
                return Result::Err(unrecognized(&toks[p + 1], expected1("a return type")));
            }
        },
        _ => {
            return Result::Err(unrecognized(&toks[p + 1], expected1("a return type")));
        },
    };
    if n - p <= 2 {
        return Result::Err(ParseError::UnrecognizedEof { expected: expected1("begin") });
    }
    if !(matches!(toks[p + 2].token, Token::Begin)) {
        return Result::Err(unrecognized(&toks[p + 2], expected1("begin")));
    }
    // register the signature first, so the body can call the function
    let signature = Function {
        name: name.clone(),
        location: Span { start, end: toks[p + 2].end },
        args: clone_args(&args),
        body: Vec::new(),
        return_type,
        is_builtin: false,
    };
    let ghost e0 = env_of(*old(context));
    let ghost sig = FuncSig {
        name: name@,
        args: args@.map_values(|a: Argument| a.var_type),
        ret: return_type,
    };
    match context.add_function(&signature) {
        Result::Ok(_) => (),
        Result::Err(message) => {
            return Result::Err(
                ParseError::User { error: function_table_err(message, name_span) },
            );
        },
    }
    proof {
        lemma_funcs_sig(old(context).functions@, name@);
        crate::ast::context::lemma_lookup_function_found(old(context).functions@, name@);
        assert(funcs_sig(e0.funcs, name@) is None);
        assert(context.functions@.last().args@.map_values(|a: Argument| a.var_type)
            =~= args@.map_values(|a: Argument| a.var_type));
        assert(crate::typecheck::funcs_model(context.functions@) =~~= e0.funcs.push(sig));
    }
    // the body sees the arguments as scope-local variables
    context.push_scope();
    let ghost c_a = *context;
    proof {
        assert(scope_model(c_a.variables@.last()@) =~= Seq::<(Seq<char>, VarType)>::empty());
        assert(args_scope(args@.take(0)) =~= Seq::<(Seq<char>, VarType)>::empty());
        assert(scopes_model(c_a.variables@) =~~= e0.scopes.push(args_scope(args@.take(0))));
    }
    let mut ai: usize = 0;
    while ai < args.len()
        invariant
            context.wf(),
            ai <= args@.len(),
            context.scope_level == old(context).scope_level + 1,
            context.functions@ == c_a.functions@,
            context.functions@.len() == old(context).functions@.len() + 1,
            crate::typecheck::funcs_model(context.functions@) == e0.funcs.push(sig),
            scopes_model(context.variables@) == e0.scopes.push(args_scope(args@.take(ai as int))),
        decreases args@.len() - ai,
    {
        let ghost prev = *context;
        context.add_variable(
            Statement::VariableDeclaration(
                Variable {
                    var_type: args[ai].var_type,
                    name: args[ai].name.clone(),
                    value: Expr::Operand(Operand::Identifier(args[ai].name.clone())),
                    location: name_span,
                },
            ),
        );
        proof {
            assert(scope_model(context.variables@.last()@) =~= scope_model(
                prev.variables@.last()@,
            ).push((args@[ai as int].name@, args@[ai as int].var_type)));
            assert(args_scope(args@.take(ai + 1)) =~= args_scope(args@.take(ai as int)).push(
                (args@[ai as int].name@, args@[ai as int].var_type),
            ));
            let lhs = scopes_model(context.variables@);
            let rhs = e0.scopes.push(args_scope(args@.take(ai + 1)));
            let prev_model = scopes_model(prev.variables@);
            assert(lhs.len() == context.variables@.len());
            assert(prev_model.len() == prev.variables@.len());
            assert(prev_model.last() == scope_model(prev.variables@.last()@));
            assert forall|k: int| 0 <= k < lhs.len() implies lhs[k] == rhs[k] by {
                assert(lhs[k] == scope_model(context.variables@[k]@));
                if k < lhs.len() - 1 {
                    assert(context.variables@[k] == prev.variables@[k]);
                    assert(prev_model[k] == scope_model(prev.variables@[k]@));
                    assert(rhs[k] == e0.scopes.push(args_scope(args@.take(ai as int)))[k]);
                } else {
                    assert(context.variables@[k] == context.variables@.last());
                }
            }
            assert(lhs =~= rhs);
        }
        ai = ai + 1;
    }
    proof {
        assert(args@.take(args@.len() as int) =~= args@);
        assert(env_of(*context) == TypeEnv {
            scopes: e0.scopes.push(args_scope(args@)),
            funcs: e0.funcs.push(sig),
        });
    }
    let ghost c_b = *context;
    let (body, p2) = match parse_statements_until_end(toks, p + 3, context) {
        Result::Ok(q) => q,
        Result::Err(e) => {
            return Result::Err(e);
        },
    };
    let ghost c_c = *context;
    context.pop_scope();
    proof {
        assert(scopes_model(context.variables@) =~= scopes_model(c_c.variables@).drop_last());
    }
    let f = Function {
        name,
        location: Span { start, end: toks[p2 - 1].end },
        args,
        body,
        return_type,
        is_builtin: false,
    };
    proof {
        assert(stmts_typed(f.body@, env_of(c_b)) == Option::Some(env_of(c_c)));
        assert(stmt_typed(Statement::FunctionDefinition(f), e0) == Option::Some(
            env_of(*context),
        ));
    }
    Result::Ok((Statement::FunctionDefinition(f), p2))
}

/// Parses statements up to and including a closing `end`.
fn parse_statements_until_end(toks: &Vec<SpannedToken>, pos: usize, context: &mut Context) -> (r:
    Result<(Vec<Statement>, usize), ParseError>)
    requires
        old(context).wf(),
        pos <= toks@.len(),
    ensures
        final(context).wf(),
        match r {
            Result::Ok(q) => pos < q.1 <= toks@.len() && stmts_wf(q.0@)
                && final(context).scope_level == old(context).scope_level && stmts_typed(
                q.0@,
                env_of(*old(context)),
            ) == Option::Some(env_of(*final(context))) && stmts_from(
                toks@,
                pos as int,
                env_of(*old(context)),
                q.0@,
            ) && q.1 == pos + stmts_token_len(q.0@) + 1 && toks@[q.1 - 1].token is End,
            Result::Err(_) => true,
        },
    decreases toks@.len() - pos, 2nat,
{
    let n = toks.len();
    let mut statements: Vec<Statement> = Vec::new();
    let mut cur: usize = pos;
    loop
        invariant
            context.wf(),
            context.scope_level == old(context).scope_level,
            pos <= cur <= toks@.len(),
            n == toks@.len(),
            stmts_wf(statements@),
            stmts_typed(statements@, env_of(*old(context))) == Option::Some(env_of(*context)),
            stmts_from(toks@, pos as int, env_of(*old(context)), statements@),
            cur == pos + stmts_token_len(statements@),
        decreases toks@.len() - cur,
    {
        if cur >= n {
            return Result::Err(ParseError::UnrecognizedEof { expected: expected1("end") });
        }
        if matches!(toks[cur].token, Token::End) {
            return Result::Ok((statements, cur + 1));
        }
        let ghost before = *context;
        let (s, next) = match parse_statement(toks, cur, context) {
            Result::Ok(q) => q,
            Result::Err(e) => {
                return Result::Err(e);
            },
        };
        proof {
            crate::ast::lemma_stmts_wf_push(statements@, s);
            lemma_stmts_typed_push(statements@, s, env_of(*old(context)));
            lemma_stmts_from_push(
                toks@,
                pos as int,
                env_of(*old(context)),
                env_of(before),
                statements@,
                s,
            );
        }
        statements.push(s);
        cur = next;
    }
}

/// Parses a whole program: statements up to the end of the tokens.
fn parse_statements(toks: &Vec<SpannedToken>, context: &mut Context) -> (r: Result<
    Vec<Statement>,
    ParseError,
>)
    requires
        old(context).wf(),
    ensures
        match r {
            Result::Ok(ss) => stmts_wf(ss@) && ss@.len() <= toks@.len() && (toks@.len() > 0
                ==> ss@.len() > 0) && stmts_typed(ss@, env_of(*old(context)))
                == Option::Some(env_of(*final(context))) && stmts_from(
                toks@,
                0,
                env_of(*old(context)),
                ss@,
            ) && stmts_token_len(ss@) == toks@.len(),
            Result::Err(_) => true,
        },
        plain_statements(toks@, 0) ==> r is Ok,
{
    let n = toks.len();
    let mut statements: Vec<Statement> = Vec::new();
    let mut cur: usize = 0;
    while cur < n
        invariant
            context.wf(),
            cur <= toks@.len(),
            n == toks@.len(),
            stmts_wf(statements@),
            statements@.len() <= cur,
            cur > 0 ==> statements@.len() > 0,
            stmts_typed(statements@, env_of(*old(context))) == Option::Some(env_of(*context)),
            plain_statements(toks@, 0) ==> plain_statements(toks@, cur as int),
            stmts_from(toks@, 0, env_of(*old(context)), statements@),
            cur == stmts_token_len(statements@),
        decreases toks@.len() - cur,
    {
        let ghost before = *context;
        let (s, next) = match parse_statement(toks, cur, context) {
            Result::Ok(q) => q,
            Result::Err(e) => {
                return Result::Err(e);
            },
        };
        proof {
            crate::ast::lemma_stmts_wf_push(statements@, s);
            lemma_stmts_typed_push(statements@, s, env_of(*old(context)));
            lemma_stmts_from_push(toks@, 0, env_of(*old(context)), env_of(before), statements@, s);
        }
        statements.push(s);
        cur = next;
    }
    Result::Ok(statements)
}

/// The parser.
pub struct Parser;

impl Parser {
    pub fn new() -> (r: Parser) {
        Parser
    }

    /// Reduces a token stream to a statement list, resolving and
    /// checking types along the way.
    ///
    /// Every returned statement list is accepted by the typing judgment
    /// (`crate::typecheck::stmts_typed`) from the initial environment:
    /// every declaration — function bodies included — initializes at
    /// its declared type, and every call matches its callee's arity and
    /// parameter types. In the result every conditional operation
    /// carries the type `bool`; a nonempty token stream parses to a
    /// nonempty statement list, and each statement consumed at least
    /// one token. On a stream of plain statements — jumps, labels and
    /// literal declarations at their declared types — parsing is owed
    /// success.
    pub fn parse(&self, lexer: Lexer) -> (r: Result<Vec<Statement>, ParseError>)
        ensures
            match r {
                Result::Ok(ss) => stmts_wf(ss@) && stmts_typed(ss@, initial_env()) is Some
                    && stmts_from(lexer.tokens@, 0, initial_env(), ss@) && stmts_token_len(ss@)
                    == lexer.tokens@.len() && ss@.len() <= lexer.tokens@.len() && (
                lexer.tokens@.len() > 0 ==> ss@.len() > 0),
                Result::Err(_) => true,
            },
            plain_statements(lexer.tokens@, 0) ==> r is Ok,
    {
        let mut context = Context::new(0);
        proof {
            assert(scope_model(context.variables@[0]@) =~= Seq::<(Seq<char>, VarType)>::empty());
            assert(scopes_model(context.variables@) =~~= initial_env().scopes);
            assert(crate::typecheck::funcs_model(context.functions@) =~= initial_env().funcs);
            assert(env_of(context) == initial_env());
        }
        parse_statements(&lexer.tokens, &mut context)
    }
}

impl Default for Parser {
    fn default() -> (r: Parser) {
        Parser::new()
    }
}

} // verus!
