//! The typing judgment the parser establishes: a specification-level
//! record, over the parsed statement list alone, of everything the
//! parser checked while it resolved identifiers and signatures.
//!
//! `Parser::parse` guarantees that every statement list it returns is
//! accepted by this judgment from the initial environment: every
//! declaration's initializer has the declared type, every call matches
//! its callee's arity and parameter types, and function definitions are
//! well formed recursively, their bodies typed under their arguments.

use vstd::prelude::*;

use crate::ast::context::{
    builtin_arg_types, builtin_return_type, is_builtin_name, lookup_function, lookup_in_scope,
    lookup_scopes, Context,
};
use crate::ast::{Argument, Expr, Function, FunctionCall, Operand, Statement, VarType, Variable};

verus! {

/// One function's callable signature.
pub ghost struct FuncSig {
    pub name: Seq<char>,
    pub args: Seq<VarType>,
    pub ret: VarType,
}

/// The typing environment: a stack of lexical scopes binding names to
/// types, and the user-defined function signatures.
pub ghost struct TypeEnv {
    pub scopes: Seq<Seq<(Seq<char>, VarType)>>,
    pub funcs: Seq<FuncSig>,
}

/// The environment parsing starts from: one empty scope, no
/// user-defined functions. (The built-ins need no entry: signature
/// resolution gives them priority by name.)
pub open spec fn initial_env() -> TypeEnv {
    TypeEnv { scopes: seq![Seq::<(Seq<char>, VarType)>::empty()], funcs: Seq::empty() }
}

/// The first binding of a name in one scope, in declaration order.
pub open spec fn scope_type(scope: Seq<(Seq<char>, VarType)>, name: Seq<char>) -> Option<VarType>
    decreases scope.len(),
{
    if scope.len() == 0 {
        Option::None
    } else if scope[0].0 == name {
        Option::Some(scope[0].1)
    } else {
        scope_type(scope.drop_first(), name)
    }
}

/// Scope lookup, innermost (last) scope first: the nearest binding wins.
pub open spec fn scopes_type(scopes: Seq<Seq<(Seq<char>, VarType)>>, name: Seq<char>) -> Option<
    VarType,
>
    decreases scopes.len(),
{
    if scopes.len() == 0 {
        Option::None
    } else {
        match scope_type(scopes.last(), name) {
            Option::Some(t) => Option::Some(t),
            Option::None => scopes_type(scopes.drop_last(), name),
        }
    }
}

/// The first signature stored under a name.
pub open spec fn funcs_sig(fs: Seq<FuncSig>, name: Seq<char>) -> Option<FuncSig>
    decreases fs.len(),
{
    if fs.len() == 0 {
        Option::None
    } else if fs[0].name == name {
        Option::Some(fs[0])
    } else {
        funcs_sig(fs.drop_first(), name)
    }
}

/// The signature a call resolves to: built-ins take priority, then the
/// user-defined signatures.
pub open spec fn env_sig(env: TypeEnv, name: Seq<char>) -> Option<(Seq<VarType>, VarType)> {
    if is_builtin_name(name) {
        Option::Some((builtin_arg_types(name), builtin_return_type(name)))
    } else {
        match funcs_sig(env.funcs, name) {
            Option::Some(g) => Option::Some((g.args, g.ret)),
            Option::None => Option::None,
        }
    }
}

/// The type an operand denotes under an environment.
pub open spec fn operand_type_in(op: Operand, env: TypeEnv) -> Option<VarType> {
    match op.spec_literal_type() {
        Option::Some(t) => Option::Some(t),
        Option::None => scopes_type(env.scopes, op->Identifier_0@),
    }
}

/// The type of an expression under an environment.
pub open spec fn expr_type_in(e: Expr, env: TypeEnv) -> Option<VarType> {
    match e {
        Expr::Operand(op) => operand_type_in(op, env),
        Expr::BinaryOperation(b) => Option::Some(b.spec_operation_type()),
        Expr::FunctionCall(fc) => Option::Some(fc.return_type),
    }
}

/// A call agrees with its callee: the callee resolves, the argument
/// count equals its arity, every argument has the declared parameter
/// type, and the recorded return type is the callee's.
pub open spec fn call_typed(fc: FunctionCall, env: TypeEnv) -> bool {
    match env_sig(env, fc.name@) {
        Option::Some((arg_types, ret)) => {
            &&& fc.params@.len() == arg_types.len()
            &&& (forall|i: int|
                0 <= i < arg_types.len() ==> operand_type_in(#[trigger] fc.params@[i], env)
                    == Option::Some(arg_types[i]))
            &&& fc.return_type == ret
        },
        Option::None => false,
    }
}

/// The environment with one more binding in the innermost scope.
pub open spec fn bind_var(env: TypeEnv, name: Seq<char>, t: VarType) -> TypeEnv {
    TypeEnv {
        scopes: env.scopes.update(
            env.scopes.len() - 1,
            env.scopes.last().push((name, t)),
        ),
        funcs: env.funcs,
    }
}

/// The scope a function's arguments open, in declaration order.
pub open spec fn args_scope(args: Seq<Argument>) -> Seq<(Seq<char>, VarType)> {
    args.map_values(|a: Argument| (a.name@, a.var_type))
}

/// One statement's typing: the facts the parser checks, and how the
/// statement changes the environment. A declaration requires its
/// initializer to have the declared type (a call initializer to match
/// its callee) and binds its name; a call statement must match its
/// callee and return `void`; a conditional jump's condition is never a
/// call; a function definition must not reuse a built-in or taken name,
/// registers its signature, and types its body under a fresh scope
/// holding the arguments, which closes afterwards.
pub open spec fn stmt_typed(s: Statement, env: TypeEnv) -> Option<TypeEnv>
    decreases s, 0nat,
{
    match s {
        Statement::ConditionalJump { condition, .. } => {
            if !(condition is FunctionCall) {
                Option::Some(env)
            } else {
                Option::None
            }
        },
        Statement::VariableDeclaration(v) => {
            if expr_type_in(v.value, env) == Option::Some(v.var_type) && (v.value matches
                Expr::FunctionCall(fc) ==> call_typed(fc, env)) {
                Option::Some(bind_var(env, v.name@, v.var_type))
            } else {
                Option::None
            }
        },
        Statement::Call(fc) => {
            if call_typed(fc, env) && fc.return_type == VarType::Void {
                Option::Some(env)
            } else {
                Option::None
            }
        },
        Statement::FunctionDefinition(f) => {
            if is_builtin_name(f.name@) || funcs_sig(env.funcs, f.name@) is Some {
                Option::None
            } else {
                let sig = FuncSig {
                    name: f.name@,
                    args: f.args@.map_values(|a: Argument| a.var_type),
                    ret: f.return_type,
                };
                let env1 = TypeEnv { scopes: env.scopes, funcs: env.funcs.push(sig) };
                let env2 = TypeEnv { scopes: env1.scopes.push(args_scope(f.args@)), funcs: env1.funcs };
                match stmts_typed(f.body@, env2) {
                    Option::Some(env3) => Option::Some(
                        TypeEnv { scopes: env3.scopes.drop_last(), funcs: env3.funcs },
                    ),
                    Option::None => Option::None,
                }
            }
        },
        _ => Option::Some(env),
    }
}

/// A statement list types in order, each statement under the
/// environment the previous ones produced.
pub open spec fn stmts_typed(ss: Seq<Statement>, env: TypeEnv) -> Option<TypeEnv>
    decreases ss, 1nat,
{
    if ss.len() == 0 {
        Option::Some(env)
    } else {
        match stmt_typed(ss[0], env) {
            Option::Some(e2) => stmts_typed(ss.drop_first(), e2),
            Option::None => Option::None,
        }
    }
}

/// Appending one statement extends the judgment.
pub proof fn lemma_stmts_typed_push(ss: Seq<Statement>, s: Statement, env: TypeEnv)
    ensures
        stmts_typed(ss.push(s), env) == (match stmts_typed(ss, env) {
            Option::Some(e2) => stmt_typed(s, e2),
            Option::None => Option::<TypeEnv>::None,
        }),
    decreases ss.len(),
{
    if ss.len() == 0 {
        assert(ss.push(s)[0] == s);
        assert(ss.push(s).drop_first() =~= Seq::<Statement>::empty());
        match stmt_typed(s, env) {
            Option::Some(e2) => {
                assert(stmts_typed(Seq::<Statement>::empty(), e2) == Option::Some(e2));
                assert(stmts_typed(ss.push(s), env) == Option::Some(e2));
            },
            Option::None => {
                assert(stmts_typed(ss.push(s), env) is None);
            },
        }
        assert(stmts_typed(ss, env) == Option::Some(env));
    } else {
        assert(ss.push(s)[0] == ss[0]);
        assert(ss.push(s).drop_first() =~= ss.drop_first().push(s));
        match stmt_typed(ss[0], env) {
            Option::Some(e1) => {
                lemma_stmts_typed_push(ss.drop_first(), s, e1);
                assert(stmts_typed(ss.push(s), env) == stmts_typed(ss.drop_first().push(s), e1));
                assert(stmts_typed(ss, env) == stmts_typed(ss.drop_first(), e1));
            },
            Option::None => {
                assert(stmts_typed(ss.push(s), env) is None);
                assert(stmts_typed(ss, env) is None);
            },
        }
    }
}

// ---------------------------------------------------------------------
// The judgment agrees with the parser's symbol tables
// ---------------------------------------------------------------------

pub open spec fn scope_model(scope: Seq<Variable>) -> Seq<(Seq<char>, VarType)> {
    scope.map_values(|v: Variable| (v.name@, v.var_type))
}

pub open spec fn scopes_model(scopes: Seq<Vec<Variable>>) -> Seq<Seq<(Seq<char>, VarType)>> {
    scopes.map_values(|s: Vec<Variable>| scope_model(s@))
}

pub open spec fn funcs_model(fs: Seq<Function>) -> Seq<FuncSig> {
    fs.map_values(
        |f: Function| FuncSig {
            name: f.name@,
            args: f.args@.map_values(|a: Argument| a.var_type),
            ret: f.return_type,
        },
    )
}

/// The environment a parsing context denotes.
pub open spec fn env_of(ctx: Context) -> TypeEnv {
    TypeEnv { scopes: scopes_model(ctx.variables@), funcs: funcs_model(ctx.functions@) }
}

pub proof fn lemma_scope_type(scope: Seq<Variable>, name: Seq<char>)
    ensures
        scope_type(scope_model(scope), name) == (match lookup_in_scope(scope, name) {
            Option::Some(v) => Option::Some(v.var_type),
            Option::None => Option::<VarType>::None,
        }),
    decreases scope.len(),
{
    if scope.len() > 0 {
        assert(scope_model(scope)[0] == (scope[0].name@, scope[0].var_type));
        assert(scope_model(scope).drop_first() =~= scope_model(scope.drop_first()));
        lemma_scope_type(scope.drop_first(), name);
    }
}

pub proof fn lemma_scopes_type(scopes: Seq<Vec<Variable>>, name: Seq<char>)
    ensures
        scopes_type(scopes_model(scopes), name) == (match lookup_scopes(scopes, name) {
            Option::Some(v) => Option::Some(v.var_type),
            Option::None => Option::<VarType>::None,
        }),
    decreases scopes.len(),
{
    if scopes.len() > 0 {
        assert(scopes_model(scopes).last() == scope_model(scopes.last()@));
        assert(scopes_model(scopes).drop_last() =~= scopes_model(scopes.drop_last()));
        lemma_scope_type(scopes.last()@, name);
        lemma_scopes_type(scopes.drop_last(), name);
    }
}

pub proof fn lemma_funcs_sig(fs: Seq<Function>, name: Seq<char>)
    ensures
        funcs_sig(funcs_model(fs), name) == (match lookup_function(fs, name) {
            Option::Some(g) => Option::Some(
                FuncSig {
                    name: g.name@,
                    args: g.args@.map_values(|a: Argument| a.var_type),
                    ret: g.return_type,
                },
            ),
            Option::None => Option::<FuncSig>::None,
        }),
    decreases fs.len(),
{
    if fs.len() > 0 {
        assert(funcs_model(fs)[0] == FuncSig {
            name: fs[0].name@,
            args: fs[0].args@.map_values(|a: Argument| a.var_type),
            ret: fs[0].return_type,
        });
        assert(funcs_model(fs).drop_first() =~= funcs_model(fs.drop_first()));
        lemma_funcs_sig(fs.drop_first(), name);
    }
}

/// A name's type under the environment is its type under the context.
pub proof fn lemma_env_var_type(ctx: Context, name: Seq<char>)
    ensures
        scopes_type(env_of(ctx).scopes, name) == ctx.spec_variable_type(name),
{
    lemma_scopes_type(ctx.variables@, name);
}

/// An operand's type under the environment is its type under the
/// context.
pub proof fn lemma_operand_type(op: Operand, ctx: Context)
    ensures
        operand_type_in(op, env_of(ctx)) == crate::parser::operand_spec_type(op, ctx),
{
    if op.spec_literal_type() is None {
        lemma_env_var_type(ctx, op->Identifier_0@);
    }
}

/// Signature resolution under the environment is resolution under the
/// context.
pub proof fn lemma_env_sig(ctx: Context, name: Seq<char>)
    ensures
        env_sig(env_of(ctx), name) == crate::parser::spec_resolved_sig(ctx, name),
{
    if !is_builtin_name(name) {
        lemma_funcs_sig(ctx.functions@, name);
    }
}

/// A call checks under the environment exactly when it checks under the
/// context.
pub proof fn lemma_call_typed(fc: FunctionCall, ctx: Context)
    ensures
        call_typed(fc, env_of(ctx)) == crate::parser::call_checked(fc, ctx),
{
    lemma_env_sig(ctx, fc.name@);
    assert forall|i: int| 0 <= i < fc.params@.len() implies operand_type_in(
        #[trigger] fc.params@[i],
        env_of(ctx),
    ) == crate::parser::operand_spec_type(fc.params@[i], ctx) by {
        lemma_operand_type(fc.params@[i], ctx);
    }
}

/// An expression's type under the environment is its type under the
/// context.
pub proof fn lemma_expr_type(e: Expr, ctx: Context)
    ensures
        expr_type_in(e, env_of(ctx)) == crate::ast::expr_spec_type(e, ctx),
{
    match e {
        Expr::Operand(op) => {
            lemma_operand_type(op, ctx);
        },
        _ => {},
    }
}

} // verus!
