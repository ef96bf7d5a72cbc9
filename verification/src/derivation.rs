//! The reference derivation of the parser: which statement values a
//! token range derives, field by field, under a typing environment.
//!
//! `Parser::parse` guarantees that every statement list it returns is
//! derived from its whole token stream by these relations, so the
//! returned values — names, literals, operators, types, spans, function
//! signatures and bodies — are fixed by the tokens, and no statement
//! appears that the tokens do not spell.

use vstd::prelude::*;

use crate::ast::context::is_builtin_name;
use crate::ast::{
    type_of_text, BinaryOperation, Condition, Expr, FunctionCall, Operand, Operator, Span,
    Statement, VarType,
};
use crate::lexer::tokens::Token;
use crate::lexer::SpannedToken;
use crate::parser::{is_condition_token, is_operator_token};
use crate::typecheck::{
    args_scope, call_typed, operand_type_in, stmt_typed, stmts_typed, FuncSig, TypeEnv,
};

verus! {

/// The operand one token spells.
pub open spec fn operand_from(tok: Token, op: Operand) -> bool {
    match (tok, op) {
        (Token::Identifier(n), Operand::Identifier(m)) => m@ == n@,
        (Token::Dereference(n), Operand::Dereference(m)) => m@ == n@,
        (Token::LiteralString(v), Operand::LiteralStr(w)) => w@ == v@,
        (Token::LiteralTrue, Operand::LiteralBool(b)) => b == true,
        (Token::LiteralFalse, Operand::LiteralBool(b)) => b == false,
        (Token::LiteralI8(v), Operand::LiteralI8(w)) => w == v,
        (Token::LiteralI16(v), Operand::LiteralI16(w)) => w == v,
        (Token::LiteralI32(v), Operand::LiteralI32(w)) => w == v,
        (Token::LiteralI64(v), Operand::LiteralI64(w)) => w == v,
        (Token::LiteralU8(v), Operand::LiteralU8(w)) => w == v,
        (Token::LiteralU16(v), Operand::LiteralU16(w)) => w == v,
        (Token::LiteralU32(v), Operand::LiteralU32(w)) => w == v,
        (Token::LiteralU64(v), Operand::LiteralU64(w)) => w == v,
        (Token::LiteralF32(v), Operand::LiteralF32(w)) => w@ == v@,
        (Token::LiteralF64(v), Operand::LiteralF64(w)) => w@ == v@,
        _ => false,
    }
}

/// The arithmetic operator one token spells.
pub open spec fn operator_from(tok: Token, o: Operator) -> bool {
    match (tok, o) {
        (Token::Add, Operator::Add) => true,
        (Token::Sub, Operator::Sub) => true,
        (Token::Mul, Operator::Mul) => true,
        (Token::Div, Operator::Div) => true,
        _ => false,
    }
}

/// The comparison or logical operator one token spells.
pub open spec fn condition_from(tok: Token, c: Condition) -> bool {
    match (tok, c) {
        (Token::LessThan, Condition::LessThan) => true,
        (Token::GreaterThan, Condition::GreaterThan) => true,
        (Token::LessThanOrEqual, Condition::LessThanOrEqual) => true,
        (Token::GreaterThanOrEqual, Condition::GreaterThanOrEqual) => true,
        (Token::Equal, Condition::Equal) => true,
        (Token::NotEqual, Condition::NotEqual) => true,
        (Token::And, Condition::And) => true,
        (Token::Or, Condition::Or) => true,
        _ => false,
    }
}

/// How many tokens an expression consumed: one per operand, one per
/// operator, and for a call its name, both parentheses and one per
/// argument.
pub open spec fn expr_token_len(e: Expr) -> int {
    match e {
        Expr::Operand(_) => 1,
        Expr::BinaryOperation(_) => 3,
        Expr::FunctionCall(fc) => 3 + fc.params@.len() as int,
    }
}

/// How many tokens a statement consumed.
pub open spec fn stmt_token_len(s: Statement) -> int
    decreases s, 0nat,
{
    match s {
        Statement::VariableDeclaration(v) => 4 + expr_token_len(v.value),
        Statement::Label { .. } => 2,
        Statement::Call(fc) => 3 + fc.params@.len() as int,
        Statement::ConditionalJump { condition, .. } => 3 + expr_token_len(condition),
        Statement::UnconditionalJump { .. } => 2,
        Statement::Store { .. } => 3,
        Statement::FunctionDefinition(f) => 8 + 3 * (f.args@.len() as int) + stmts_token_len(f.body@),
        Statement::NoOperation => 0,
    }
}

/// How many tokens a statement list consumed.
pub open spec fn stmts_token_len(ss: Seq<Statement>) -> int
    decreases ss, 1nat,
{
    if ss.len() == 0 {
        0
    } else {
        stmt_token_len(ss[0]) + stmts_token_len(ss.drop_first())
    }
}

/// A simple expression — one operand, or a binary operation of two
/// operands — derived from the tokens at `pos` with the resolved type
/// `t`. A lone operand is taken only when no operator follows; operand
/// types resolve under `env` and agree as the parser checks them. No
/// call can stand here.
pub open spec fn simple_expr_from(
    toks: Seq<SpannedToken>,
    pos: int,
    env: TypeEnv,
    e: Expr,
    t: VarType,
) -> bool {
    match e {
        Expr::Operand(op) => {
            &&& 0 <= pos < toks.len()
            &&& operand_from(toks[pos].token, op)
            &&& operand_type_in(op, env) == Option::Some(t)
            &&& (pos + 1 == toks.len() || (!is_operator_token(toks[pos + 1].token)
                && !is_condition_token(toks[pos + 1].token)))
        },
        Expr::BinaryOperation(b) => {
            0 <= pos && pos + 2 < toks.len() && match b {
                BinaryOperation::Arithmetic { lhs, operator, rhs, operation_type } => {
                    &&& operand_from(toks[pos].token, lhs)
                    &&& operator_from(toks[pos + 1].token, operator)
                    &&& operand_from(toks[pos + 2].token, rhs)
                    &&& operand_type_in(lhs, env) == Option::Some(t)
                    &&& operand_type_in(rhs, env) == Option::Some(t)
                    &&& operation_type == t
                },
                BinaryOperation::Conditional { lhs, condition, rhs, operation_type } => {
                    &&& operand_from(toks[pos].token, lhs)
                    &&& condition_from(toks[pos + 1].token, condition)
                    &&& operand_from(toks[pos + 2].token, rhs)
                    &&& operand_type_in(lhs, env) is Some
                    &&& operand_type_in(lhs, env) == operand_type_in(rhs, env)
                    &&& operation_type == VarType::Bool
                    &&& t == VarType::Bool
                },
            }
        },
        Expr::FunctionCall(_) => false,
    }
}

/// A call `name(arg …)` derived from the tokens at `pos`: the callee
/// name, one operand token per argument, the closing parenthesis, the
/// span, and agreement with the callee's signature under `env`.
pub open spec fn call_from(toks: Seq<SpannedToken>, pos: int, env: TypeEnv, fc: FunctionCall) -> bool {
    let end = pos + 3 + fc.params@.len();
    {
        &&& 0 <= pos
        &&& end <= toks.len()
        &&& (toks[pos].token matches Token::Identifier(n) && fc.name@ == n@)
        &&& toks[pos + 1].token is OpenParen
        &&& (forall|j: int|
            0 <= j < fc.params@.len() ==> operand_from(
                toks[pos + 2 + j].token,
                #[trigger] fc.params@[j],
            ))
        &&& toks[end - 1].token is CloseParen
        &&& call_typed(fc, env)
        &&& fc.location == (Span { start: toks[pos].start, end: toks[end - 1].end })
    }
}

/// An initializer expression: a call when the tokens spell one, else a
/// simple expression.
pub open spec fn expr_from(
    toks: Seq<SpannedToken>,
    pos: int,
    env: TypeEnv,
    e: Expr,
    t: VarType,
) -> bool {
    if 0 <= pos && pos + 1 < toks.len() && toks[pos].token is Identifier && toks[pos
        + 1].token is OpenParen {
        e matches Expr::FunctionCall(fc) && call_from(toks, pos, env, fc) && t == fc.return_type
    } else {
        simple_expr_from(toks, pos, env, e, t)
    }
}

/// The declared return type one token spells: a type name, or the word
/// `void`.
pub open spec fn return_type_from(tok: Token, rt: VarType) -> bool {
    ||| (tok matches Token::Type(tt) && type_of_text(tt@) == Option::Some(rt))
    ||| (tok matches Token::Identifier(w) && w@ == "void"@ && rt == VarType::Void)
}

/// One statement derived from the `stmt_token_len(s)` tokens at `pos`
/// under `env`.
pub open spec fn stmt_from(toks: Seq<SpannedToken>, pos: int, env: TypeEnv, s: Statement) -> bool
    decreases s, 0nat,
{
    let end = pos + stmt_token_len(s);
    0 <= pos < end <= toks.len() && match s {
        Statement::VariableDeclaration(v) => {
            &&& (toks[pos].token matches Token::Identifier(n) && v.name@ == n@)
            &&& toks[pos + 1].token is Colon
            &&& (toks[pos + 2].token matches Token::Type(tt) && type_of_text(tt@)
                == Option::Some(v.var_type))
            &&& toks[pos + 3].token is Assign
            &&& expr_from(toks, pos + 4, env, v.value, v.var_type)
            &&& v.location == (Span { start: toks[pos].start, end: toks[end - 1].end })
        },
        Statement::Label { name, location } => {
            &&& (toks[pos].token matches Token::Identifier(n) && name@ == n@)
            &&& toks[pos + 1].token is Colon
            &&& (pos + 2 == toks.len() || !(toks[pos + 2].token is Type))
            &&& location == (Span { start: toks[pos].start, end: toks[pos + 1].end })
        },
        Statement::Call(fc) => {
            &&& call_from(toks, pos, env, fc)
            &&& fc.return_type == VarType::Void
        },
        Statement::ConditionalJump { condition, label, location } => {
            let mid = pos + 1 + expr_token_len(condition);
            {
                &&& toks[pos].token is If
                &&& (exists|t: VarType| #[trigger] simple_expr_from(
                    toks,
                    pos + 1,
                    env,
                    condition,
                    t,
                ))
                &&& toks[mid].token is Goto
                &&& (toks[mid + 1].token matches Token::Identifier(l) && label@ == l@)
                &&& location == (Span { start: toks[pos].start, end: toks[end - 1].end })
            }
        },
        Statement::UnconditionalJump { label, location } => {
            &&& toks[pos].token is Goto
            &&& (toks[pos + 1].token matches Token::Identifier(l) && label@ == l@)
            &&& location == (Span { start: toks[pos].start, end: toks[pos + 1].end })
        },
        Statement::Store { at, from, location } => {
            &&& toks[pos].token is Store
            &&& operand_from(toks[pos + 1].token, from)
            &&& operand_from(toks[pos + 2].token, at)
            &&& operand_type_in(from, env) is Some
            &&& operand_type_in(at, env) is Some
            &&& location == (Span { start: toks[pos].start, end: toks[end - 1].end })
        },
        Statement::FunctionDefinition(f) => {
            let k = f.args@.len() as int;
            let q = pos + 3 + 3 * k;
            {
                &&& toks[pos].token is Function
                &&& (toks[pos + 1].token matches Token::Identifier(n) && f.name@ == n@)
                &&& !is_builtin_name(f.name@)
                &&& toks[pos + 2].token is OpenParen
                &&& (forall|j: int|
                    0 <= j < k ==> ((toks[pos + 3 + 3 * j].token matches Token::Identifier(a)
                        && (#[trigger] f.args@[j]).name@ == a@) && toks[pos + 4 + 3 * j].token
                        is Colon && (toks[pos + 5 + 3 * j].token matches Token::Type(tt)
                        && type_of_text(tt@) == Option::Some(f.args@[j].var_type))))
                &&& toks[q].token is CloseParen
                &&& toks[q + 1].token is Colon
                &&& return_type_from(toks[q + 2].token, f.return_type)
                &&& toks[q + 3].token is Begin
                &&& stmts_from(
                    toks,
                    q + 4,
                    TypeEnv {
                        scopes: env.scopes.push(args_scope(f.args@)),
                        funcs: env.funcs.push(
                            FuncSig {
                                name: f.name@,
                                args: f.args@.map_values(|a: crate::ast::Argument| a.var_type),
                                ret: f.return_type,
                            },
                        ),
                    },
                    f.body@,
                )
                &&& toks[end - 1].token is End
                &&& f.is_builtin == false
                &&& f.location == (Span { start: toks[pos].start, end: toks[end - 1].end })
            }
        },
        Statement::NoOperation => false,
    }
}

/// A statement list derived from the tokens starting at `pos`, each
/// statement from the tokens it consumed, under the environment the
/// previous statements produced.
pub open spec fn stmts_from(toks: Seq<SpannedToken>, pos: int, env: TypeEnv, ss: Seq<Statement>) -> bool
    decreases ss, 1nat,
{
    if ss.len() == 0 {
        true
    } else {
        &&& stmt_from(toks, pos, env, ss[0])
        &&& match stmt_typed(ss[0], env) {
            Option::Some(e2) => stmts_from(toks, pos + stmt_token_len(ss[0]), e2, ss.drop_first()),
            Option::None => false,
        }
    }
}

/// Appending one derived statement extends a derivation, and the list's
/// token count grows by the statement's.
pub proof fn lemma_stmts_from_push(
    toks: Seq<SpannedToken>,
    pos: int,
    env: TypeEnv,
    e2: TypeEnv,
    ss: Seq<Statement>,
    s: Statement,
)
    requires
        stmts_from(toks, pos, env, ss),
        stmts_typed(ss, env) == Option::Some(e2),
        stmt_from(toks, pos + stmts_token_len(ss), e2, s),
        stmt_typed(s, e2) is Some,
    ensures
        stmts_from(toks, pos, env, ss.push(s)),
        stmts_token_len(ss.push(s)) == stmts_token_len(ss) + stmt_token_len(s),
    decreases ss.len(),
{
    if ss.len() == 0 {
        assert(ss.push(s)[0] == s);
        assert(ss.push(s).drop_first() =~= Seq::<Statement>::empty());
        assert(stmts_typed(ss, env) == Option::Some(env));
        assert(stmts_token_len(ss) == 0);
        assert(stmts_token_len(Seq::<Statement>::empty()) == 0);
        assert(stmts_from(
            toks,
            pos + stmt_token_len(s),
            stmt_typed(s, env)->Some_0,
            Seq::<Statement>::empty(),
        ));
    } else {
        let e1 = stmt_typed(ss[0], env)->Some_0;
        crate::typecheck::lemma_stmts_typed_push(ss.drop_first(), s, e1);
        assert(stmts_typed(ss, env) == stmts_typed(ss.drop_first(), e1));
        lemma_stmts_from_push(toks, pos + stmt_token_len(ss[0]), e1, e2, ss.drop_first(), s);
        assert(ss.push(s)[0] == ss[0]);
        assert(ss.push(s).drop_first() =~= ss.drop_first().push(s));
    }
}

} // verus!
