//! The reference semantics of the code generator: a specification-level
//! interpreter that fixes, statement by statement, which instructions,
//! data entries, register bindings and labels lowering produces, and on
//! which input it fails with which message.
//!
//! `MipsCodegen::generate` is verified to succeed exactly when this
//! interpreter does, returning the interpreter's text and data sections
//! and leaving the interpreter's register map, function map and counters
//! in the context; on failure it returns the interpreter's message.

use vstd::prelude::*;

use crate::ast::context::is_builtin_name;
use crate::ast::{
    BinaryOperation, Condition, Expr, Function, FunctionCall, Operand, Operator, Statement,
    Variable, VarType,
};
use crate::codegen::context::Context;
use crate::codegen::mips::{operand_immediate, operand_is_register, reg_name, str_label_name};
use crate::mips::{DataKind, DataValue, DataVariable, MipsArg, MipsOp, MipsStatement};
use crate::numerals::dec_rep;

verus! {

// ---------------------------------------------------------------------
// Mathematical images of the emitted values
// ---------------------------------------------------------------------

/// An instruction argument, by its text.
pub ghost enum ArgModel {
    Register(Seq<char>),
    Immediate(u32),
    Label(Seq<char>),
}

/// One line of the text section, by its text.
pub ghost enum TextModel {
    Label(Seq<char>),
    Instruction(MipsOp, Seq<ArgModel>),
}

/// One data-section entry, by its text. `is_str` records which payload
/// the entry carries: string text, or a byte count.
pub ghost struct DataModel {
    pub name: Seq<char>,
    pub kind: DataKind,
    pub is_str: bool,
    pub text: Seq<char>,
    pub bytes: u32,
}

/// One function-map entry: its mangled key, the stored function's name
/// and whether that function is a built-in.
pub ghost struct FuncModel {
    pub key: Seq<char>,
    pub name: Seq<char>,
    pub is_builtin: bool,
}

/// Everything lowering reads or writes, by its text: the register map,
/// the data and text sections, the function map and the label counters.
pub ghost struct CgState {
    pub regs: Seq<(Seq<char>, Seq<char>)>,
    pub data: Seq<DataModel>,
    pub text: Seq<TextModel>,
    pub funcs: Seq<FuncModel>,
    pub cond: u32,
    pub buf: u32,
    pub scope: u32,
}

pub open spec fn arg_model(a: MipsArg) -> ArgModel {
    match a {
        MipsArg::Register(r) => ArgModel::Register(r@),
        MipsArg::Immediate(v) => ArgModel::Immediate(v),
        MipsArg::Label(l) => ArgModel::Label(l@),
    }
}

pub open spec fn line_model(s: MipsStatement) -> TextModel {
    match s {
        MipsStatement::Label(l) => TextModel::Label(l@),
        MipsStatement::Instruction(op, args) => TextModel::Instruction(
            op,
            args@.map_values(|a: MipsArg| arg_model(a)),
        ),
    }
}

pub open spec fn text_model(ss: Seq<MipsStatement>) -> Seq<TextModel> {
    ss.map_values(|s: MipsStatement| line_model(s))
}

pub open spec fn data_entry_model(v: DataVariable) -> DataModel {
    DataModel {
        name: v.name@,
        kind: v.kind,
        is_str: v.value is Str,
        text: match v.value {
            DataValue::Str(s) => s@,
            DataValue::Bytes(_) => Seq::empty(),
        },
        bytes: match v.value {
            DataValue::Str(_) => 0,
            DataValue::Bytes(n) => n,
        },
    }
}

pub open spec fn data_model(vs: Seq<DataVariable>) -> Seq<DataModel> {
    vs.map_values(|v: DataVariable| data_entry_model(v))
}

pub open spec fn regs_model(m: Seq<(String, String)>) -> Seq<(Seq<char>, Seq<char>)> {
    m.map_values(|e: (String, String)| (e.0@, e.1@))
}

pub open spec fn funcs_model(m: Seq<(String, Function)>) -> Seq<FuncModel> {
    m.map_values(
        |e: (String, Function)| FuncModel { key: e.0@, name: e.1.name@, is_builtin: e.1.is_builtin },
    )
}

/// The image of a whole code-generation context.
pub open spec fn state_of(c: Context) -> CgState {
    CgState {
        regs: regs_model(c.register_map@),
        data: data_model(c.data_section.variables@),
        text: text_model(c.text_section.statements@),
        funcs: funcs_model(c.function_map@),
        cond: c.conditional_counter,
        buf: c.buffer_counter,
        scope: c.scope_level,
    }
}

// ---------------------------------------------------------------------
// Lookups over the images
// ---------------------------------------------------------------------

/// The first register bound to a name.
pub open spec fn reg_find(regs: Seq<(Seq<char>, Seq<char>)>, name: Seq<char>) -> Option<Seq<char>>
    decreases regs.len(),
{
    if regs.len() == 0 {
        Option::None
    } else if regs[0].0 == name {
        Option::Some(regs[0].1)
    } else {
        reg_find(regs.drop_first(), name)
    }
}

/// The first `.asciiz` entry holding exactly this text.
pub open spec fn data_find(data: Seq<DataModel>, value: Seq<char>) -> Option<int>
    decreases data.len(),
{
    if data.len() == 0 {
        Option::None
    } else if data[0].kind == DataKind::Asciiz && data[0].is_str && data[0].text == value {
        Option::Some(0)
    } else {
        match data_find(data.drop_first(), value) {
            Option::Some(i) => Option::Some(i + 1),
            Option::None => Option::None,
        }
    }
}

/// The first function-map entry stored under a mangled key.
pub open spec fn func_find(fs: Seq<FuncModel>, key: Seq<char>) -> Option<FuncModel>
    decreases fs.len(),
{
    if fs.len() == 0 {
        Option::None
    } else if fs[0].key == key {
        Option::Some(fs[0])
    } else {
        func_find(fs.drop_first(), key)
    }
}

/// The callee a call name resolves to: a built-in of that name takes
/// priority, then the function map under the mangled `__`-prefixed key.
/// The result is the stored function's name and origin.
pub open spec fn resolve_call(st: CgState, name: Seq<char>) -> Option<(Seq<char>, bool)> {
    if is_builtin_name(name) {
        Option::Some((name, true))
    } else {
        match func_find(st.funcs, "__"@ + name) {
            Option::Some(e) => Option::Some((e.name, e.is_builtin)),
            Option::None => Option::None,
        }
    }
}

// ---------------------------------------------------------------------
// Bridges from the executable structures to the images
// ---------------------------------------------------------------------

pub proof fn lemma_reg_find(m: Seq<(String, String)>, name: Seq<char>)
    ensures
        crate::codegen::context::reg_lookup(m, name) == reg_find(regs_model(m), name),
    decreases m.len(),
{
    if m.len() > 0 {
        assert(regs_model(m)[0] == (m[0].0@, m[0].1@));
        assert(regs_model(m).drop_first() =~= regs_model(m.drop_first()));
        lemma_reg_find(m.drop_first(), name);
    }
}

pub proof fn lemma_data_find(vs: Seq<DataVariable>, value: Seq<char>)
    ensures
        crate::mips::intern_index(vs, value) == data_find(data_model(vs), value),
    decreases vs.len(),
{
    if vs.len() > 0 {
        assert(data_model(vs)[0] == data_entry_model(vs[0]));
        assert(data_model(vs).drop_first() =~= data_model(vs.drop_first()));
        lemma_data_find(vs.drop_first(), value);
    }
}

pub proof fn lemma_func_find(m: Seq<(String, Function)>, key: Seq<char>)
    ensures
        match crate::codegen::context::fn_lookup(m, key) {
            Option::Some(g) => func_find(funcs_model(m), key) == Option::Some(
                FuncModel { key, name: g.name@, is_builtin: g.is_builtin },
            ),
            Option::None => func_find(funcs_model(m), key) is None,
        },
    decreases m.len(),
{
    if m.len() > 0 {
        assert(funcs_model(m)[0] == FuncModel {
            key: m[0].0@,
            name: m[0].1.name@,
            is_builtin: m[0].1.is_builtin,
        });
        assert(funcs_model(m).drop_first() =~= funcs_model(m.drop_first()));
        lemma_func_find(m.drop_first(), key);
    }
}

pub proof fn lemma_text_model_push(ss: Seq<MipsStatement>, x: MipsStatement)
    ensures
        text_model(ss.push(x)) == text_model(ss).push(line_model(x)),
{
    assert(text_model(ss.push(x)) =~= text_model(ss).push(line_model(x)));
}

pub proof fn lemma_text_model_concat(a: Seq<MipsStatement>, b: Seq<MipsStatement>)
    ensures
        text_model(a + b) == text_model(a) + text_model(b),
{
    assert(text_model(a + b) =~= text_model(a) + text_model(b));
}

pub proof fn lemma_data_model_push(vs: Seq<DataVariable>, v: DataVariable)
    ensures
        data_model(vs.push(v)) == data_model(vs).push(data_entry_model(v)),
{
    assert(data_model(vs.push(v)) =~= data_model(vs).push(data_entry_model(v)));
}

pub proof fn lemma_regs_model_push(m: Seq<(String, String)>, e: (String, String))
    ensures
        regs_model(m.push(e)) == regs_model(m).push((e.0@, e.1@)),
{
    assert(regs_model(m.push(e)) =~= regs_model(m).push((e.0@, e.1@)));
}

pub proof fn lemma_funcs_model_push(m: Seq<(String, Function)>, e: (String, Function))
    ensures
        funcs_model(m.push(e)) == funcs_model(m).push(
            FuncModel { key: e.0@, name: e.1.name@, is_builtin: e.1.is_builtin },
        ),
{
    assert(funcs_model(m.push(e)) =~= funcs_model(m).push(
        FuncModel { key: e.0@, name: e.1.name@, is_builtin: e.1.is_builtin },
    ));
}

// ---------------------------------------------------------------------
// Small builders and messages
// ---------------------------------------------------------------------

pub open spec fn ins1(op: MipsOp, a: ArgModel) -> TextModel {
    TextModel::Instruction(op, seq![a])
}

pub open spec fn ins2(op: MipsOp, a: ArgModel, b: ArgModel) -> TextModel {
    TextModel::Instruction(op, seq![a, b])
}

pub open spec fn ins3(op: MipsOp, a: ArgModel, b: ArgModel, c: ArgModel) -> TextModel {
    TextModel::Instruction(op, seq![a, b, c])
}

pub open spec fn emit(st: CgState, t: TextModel) -> CgState {
    CgState { text: st.text.push(t), ..st }
}

/// The message when an operand has no 32-bit immediate value.
pub open spec fn imm_err_msg(op: Operand) -> Seq<char> {
    if op is LiteralI64 || op is LiteralU64 {
        "Cannot store a 64-bit integer in a 32-bit register"@
    } else {
        "Invalid operand for an immediate value"@
    }
}

pub open spec fn reg_not_found_msg(name: Seq<char>) -> Seq<char> {
    "Register "@ + name + " not found"@
}

pub open spec fn fn_not_found_msg(name: Seq<char>) -> Seq<char> {
    "Function "@ + name + " not found"@
}

/// The instruction of an arithmetic operator.
pub open spec fn arith_ins(o: Operator) -> MipsOp {
    match o {
        Operator::Add => MipsOp::Add,
        Operator::Sub => MipsOp::Sub,
        Operator::Mul => MipsOp::Mul,
        Operator::Div => MipsOp::Div,
    }
}

/// The set-on-comparison instruction of a condition, if it has one.
pub open spec fn cond_set(c: Condition) -> Option<MipsOp> {
    match c {
        Condition::LessThan => Option::Some(MipsOp::SetLt),
        Condition::GreaterThan => Option::Some(MipsOp::SetGt),
        Condition::LessThanOrEqual => Option::Some(MipsOp::SetLe),
        Condition::GreaterThanOrEqual => Option::Some(MipsOp::SetGe),
        Condition::Equal => Option::Some(MipsOp::SetEq),
        Condition::NotEqual => Option::Some(MipsOp::SetNe),
        Condition::And => Option::None,
        Condition::Or => Option::None,
    }
}

/// The branch instruction of a comparison, if it has one.
pub open spec fn cond_branch(c: Condition) -> Option<MipsOp> {
    match c {
        Condition::LessThan => Option::Some(MipsOp::Blt),
        Condition::GreaterThan => Option::Some(MipsOp::Bgt),
        Condition::LessThanOrEqual => Option::Some(MipsOp::Ble),
        Condition::GreaterThanOrEqual => Option::Some(MipsOp::Bge),
        Condition::Equal => Option::Some(MipsOp::Beq),
        Condition::NotEqual => Option::Some(MipsOp::Bne),
        Condition::And => Option::None,
        Condition::Or => Option::None,
    }
}

/// The binding a name resolves to, minting `$t<N>` on first use.
pub open spec fn reg_find_or_create(regs: Seq<(Seq<char>, Seq<char>)>, name: Seq<char>) -> (
    Seq<char>,
    Seq<(Seq<char>, Seq<char>)>,
) {
    match reg_find(regs, name) {
        Option::Some(r) => (r, regs),
        Option::None => (reg_name(regs.len()), regs.push((name, reg_name(regs.len())))),
    }
}

/// Interning: an `.asciiz` entry with this text is reused, otherwise a
/// fresh one named `str_<len>` is appended.
pub open spec fn intern_data(data: Seq<DataModel>, value: Seq<char>) -> Seq<DataModel> {
    match data_find(data, value) {
        Option::Some(_) => data,
        Option::None => data.push(
            DataModel {
                name: str_label_name(data.len()),
                kind: DataKind::Asciiz,
                is_str: true,
                text: value,
                bytes: 0,
            },
        ),
    }
}

/// The `str_<i>` label this text loads through.
pub open spec fn intern_label(data: Seq<DataModel>, value: Seq<char>) -> Seq<char> {
    match data_find(data, value) {
        Option::Some(i) => str_label_name(i as nat),
        Option::None => str_label_name(data.len()),
    }
}

/// Interns the text and emits `la <register>, str_<i>`.
pub open spec fn step_load_string(st: CgState, register: Seq<char>, value: Seq<char>) -> CgState {
    let st2 = CgState { data: intern_data(st.data, value), ..st };
    emit(st2, ins2(MipsOp::La, ArgModel::Register(register), ArgModel::Label(intern_label(st.data, value))))
}

// ---------------------------------------------------------------------
// The interpreter
// ---------------------------------------------------------------------

/// Lowering an operand initializer into `register`.
pub open spec fn step_init_operand(op: Operand, register: Seq<char>, st: CgState) -> Result<
    CgState,
    Seq<char>,
> {
    match op {
        Operand::LiteralU64(_) => Result::Err(
            "Cannot store a 64-bit integer in a 32-bit register"@,
        ),
        Operand::LiteralI64(v) => Result::Ok(
            emit(st, ins2(MipsOp::Li, ArgModel::Register(register), ArgModel::Immediate(v as u32))),
        ),
        Operand::LiteralStr(value) => Result::Ok(step_load_string(st, register, value@)),
        Operand::Identifier(name) => match reg_find(st.regs, name@) {
            Option::Some(src) => Result::Ok(
                emit(st, ins2(MipsOp::Move, ArgModel::Register(register), ArgModel::Register(src))),
            ),
            Option::None => Result::Err(reg_not_found_msg(name@)),
        },
        Operand::Dereference(_) => Result::Err("Dereference initialization is not supported"@),
        Operand::LiteralF32(_) => Result::Err("Floating-point code generation is not supported"@),
        Operand::LiteralF64(_) => Result::Err("Floating-point code generation is not supported"@),
        _ => match operand_immediate(op) {
            Option::Some(v) => Result::Ok(
                emit(st, ins2(MipsOp::Li, ArgModel::Register(register), ArgModel::Immediate(v))),
            ),
            Option::None => Result::Err(imm_err_msg(op)),
        },
    }
}

/// Lowering an arithmetic initializer. An `(immediate, register)`
/// operand shape has no instruction and is rejected.
pub open spec fn step_init_arith(
    lhs: Operand,
    operator: Operator,
    rhs: Operand,
    register: Seq<char>,
    st: CgState,
) -> Result<CgState, Seq<char>> {
    let op = arith_ins(operator);
    if operand_is_register(lhs) && operand_is_register(rhs) {
        match (lhs, rhs) {
            (Operand::Identifier(ln), Operand::Identifier(rn)) => match reg_find(st.regs, ln@) {
                Option::None => Result::Err(reg_not_found_msg(ln@)),
                Option::Some(lr) => match reg_find(st.regs, rn@) {
                    Option::None => Result::Err(reg_not_found_msg(rn@)),
                    Option::Some(rr) => Result::Ok(
                        emit(
                            st,
                            ins3(
                                op,
                                ArgModel::Register(register),
                                ArgModel::Register(lr),
                                ArgModel::Register(rr),
                            ),
                        ),
                    ),
                },
            },
            _ => Result::Err("Invalid operands for arithmetic operation"@),
        }
    } else if operand_is_register(lhs) && !operand_is_register(rhs) {
        match lhs {
            Operand::Identifier(ln) => match reg_find(st.regs, ln@) {
                Option::None => Result::Err(reg_not_found_msg(ln@)),
                Option::Some(lr) => match operand_immediate(rhs) {
                    Option::None => Result::Err(imm_err_msg(rhs)),
                    Option::Some(rv) => Result::Ok(
                        emit(
                            st,
                            ins3(
                                op,
                                ArgModel::Register(register),
                                ArgModel::Register(lr),
                                ArgModel::Immediate(rv),
                            ),
                        ),
                    ),
                },
            },
            _ => Result::Err("Invalid operands for arithmetic operation"@),
        }
    } else if !operand_is_register(lhs) && !operand_is_register(rhs) {
        match operand_immediate(rhs) {
            Option::None => Result::Err(imm_err_msg(rhs)),
            Option::Some(rv) => match operand_immediate(lhs) {
                Option::None => Result::Err(imm_err_msg(lhs)),
                Option::Some(lv) => {
                    // no instruction adds two immediates: the left one is
                    // materialized in a fresh register first
                    let minted = reg_name(st.regs.len());
                    let st2 = CgState { regs: st.regs.push((minted, minted)), ..st };
                    let st3 = emit(
                        st2,
                        ins2(MipsOp::Li, ArgModel::Register(minted), ArgModel::Immediate(lv)),
                    );
                    Result::Ok(
                        emit(
                            st3,
                            ins3(
                                op,
                                ArgModel::Register(register),
                                ArgModel::Register(minted),
                                ArgModel::Immediate(rv),
                            ),
                        ),
                    )
                },
            },
        }
    } else {
        Result::Err("Invalid operands for arithmetic operation"@)
    }
}

/// Lowering a comparison initializer into a set-on-comparison
/// instruction.
pub open spec fn step_init_cond(
    lhs: Operand,
    condition: Condition,
    rhs: Operand,
    operation_type: VarType,
    register: Seq<char>,
    st: CgState,
) -> Result<CgState, Seq<char>> {
    if !(operation_type is Bool) {
        Result::Err("Conditional operations must be of type bool"@)
    } else {
        match cond_set(condition) {
            Option::None => Result::Err("Cannot perform logical operations on immediate values"@),
            Option::Some(op) => {
                if operand_is_register(lhs) && operand_is_register(rhs) {
                    match (lhs, rhs) {
                        (Operand::Identifier(ln), Operand::Identifier(rn)) => match reg_find(
                            st.regs,
                            ln@,
                        ) {
                            Option::None => Result::Err(reg_not_found_msg(ln@)),
                            Option::Some(lr) => match reg_find(st.regs, rn@) {
                                Option::None => Result::Err(reg_not_found_msg(rn@)),
                                Option::Some(rr) => Result::Ok(
                                    emit(
                                        st,
                                        ins3(
                                            op,
                                            ArgModel::Register(register),
                                            ArgModel::Register(lr),
                                            ArgModel::Register(rr),
                                        ),
                                    ),
                                ),
                            },
                        },
                        _ => Result::Err("Invalid operands for conditional operation"@),
                    }
                } else if operand_is_register(lhs) && !operand_is_register(rhs) {
                    match lhs {
                        Operand::Identifier(ln) => match reg_find(st.regs, ln@) {
                            Option::None => Result::Err(reg_not_found_msg(ln@)),
                            Option::Some(lr) => match operand_immediate(rhs) {
                                Option::None => Result::Err(imm_err_msg(rhs)),
                                Option::Some(rv) => Result::Ok(
                                    emit(
                                        st,
                                        ins3(
                                            op,
                                            ArgModel::Register(register),
                                            ArgModel::Register(lr),
                                            ArgModel::Immediate(rv),
                                        ),
                                    ),
                                ),
                            },
                        },
                        _ => Result::Err("Invalid operands for conditional operation"@),
                    }
                } else {
                    Result::Err("Invalid operands for conditional operation"@)
                }
            },
        }
    }
}

/// Lowering the argument moves of a user-defined call, from argument
/// `i` on: each argument lands in a register and moves into `$a<i>`.
pub open spec fn step_args(params: Seq<Operand>, i: nat, st: CgState) -> Result<CgState, Seq<char>>
    decreases params.len() - i,
{
    if i >= params.len() {
        Result::Ok(st)
    } else {
        let p = params[i as int];
        let loaded = match p {
            Operand::Identifier(ident) => {
                let (r, regs2) = reg_find_or_create(st.regs, ident@);
                Result::Ok((r, CgState { regs: regs2, ..st }))
            },
            Operand::LiteralStr(text) => {
                let minted = reg_name(st.regs.len());
                let st2 = CgState { regs: st.regs.push((minted, minted)), ..st };
                Result::Ok((minted, step_load_string(st2, minted, text@)))
            },
            Operand::Dereference(_) => Result::Err("Dereference arguments are not supported"@),
            Operand::LiteralF32(_) => Result::Err(
                "Floating-point code generation is not supported"@,
            ),
            Operand::LiteralF64(_) => Result::Err(
                "Floating-point code generation is not supported"@,
            ),
            _ => match operand_immediate(p) {
                Option::None => Result::Err(imm_err_msg(p)),
                Option::Some(v) => {
                    let minted = reg_name(st.regs.len());
                    let st2 = CgState { regs: st.regs.push((minted, minted)), ..st };
                    Result::Ok(
                        (
                            minted,
                            emit(
                                st2,
                                ins2(
                                    MipsOp::Li,
                                    ArgModel::Register(minted),
                                    ArgModel::Immediate(v),
                                ),
                            ),
                        ),
                    )
                },
            },
        };
        match loaded {
            Result::Err(e) => Result::Err(e),
            Result::Ok((r, st2)) => {
                let st3 = emit(
                    st2,
                    ins2(
                        MipsOp::Move,
                        ArgModel::Register("$a"@ + dec_rep(i)),
                        ArgModel::Register(r),
                    ),
                );
                step_args(params, i + 1, st3)
            },
        }
    }
}

/// The closing `syscall` and result move of a built-in read.
pub open spec fn step_syscall_move(st: CgState, register: Seq<char>) -> CgState {
    let st2 = emit(st, TextModel::Instruction(MipsOp::Syscall, Seq::empty()));
    emit(
        st2,
        ins2(MipsOp::Move, ArgModel::Register(register), ArgModel::Register("$v0"@)),
    )
}

/// Lowering a call initializer: built-in reads become syscalls whose
/// result moves into `register`; a user-defined call loads its
/// arguments and jumps.
pub open spec fn step_init_call(fc: FunctionCall, register: Seq<char>, st: CgState) -> Result<
    CgState,
    Seq<char>,
> {
    match resolve_call(st, fc.name@) {
        Option::None => Result::Err(fn_not_found_msg(fc.name@)),
        Option::Some((fname, is_b)) => {
            if is_b {
                if fname == "read_int"@ {
                    let st1 = emit(
                        st,
                        ins2(MipsOp::Li, ArgModel::Register("$v0"@), ArgModel::Immediate(5)),
                    );
                    Result::Ok(step_syscall_move(st1, register))
                } else if fname == "read_string"@ {
                    let st1 = emit(
                        st,
                        ins2(MipsOp::Li, ArgModel::Register("$v0"@), ArgModel::Immediate(8)),
                    );
                    if fc.params@.len() != 1 {
                        Result::Err("Invalid argument for read_string"@)
                    } else {
                        match fc.params@[0] {
                            Operand::LiteralU32(size) => {
                                if st.buf == u32::MAX {
                                    Result::Err("Too many generated buffers"@)
                                } else {
                                    let label = "__buffer_"@ + dec_rep((st.buf + 1) as nat);
                                    let st2 = CgState {
                                        buf: (st.buf + 1) as u32,
                                        data: st1.data.push(
                                            DataModel {
                                                name: label,
                                                kind: DataKind::Space,
                                                is_str: false,
                                                text: Seq::empty(),
                                                bytes: size,
                                            },
                                        ),
                                        ..st1
                                    };
                                    let st3 = emit(
                                        st2,
                                        ins2(
                                            MipsOp::La,
                                            ArgModel::Register("$a0"@),
                                            ArgModel::Label(label),
                                        ),
                                    );
                                    let st4 = emit(
                                        st3,
                                        ins2(
                                            MipsOp::Li,
                                            ArgModel::Register("$a1"@),
                                            ArgModel::Immediate(size),
                                        ),
                                    );
                                    Result::Ok(step_syscall_move(st4, register))
                                }
                            },
                            _ => Result::Err("Invalid argument for read_string"@),
                        }
                    }
                } else {
                    Result::Err(fn_not_found_msg(fc.name@))
                }
            } else {
                match step_args(fc.params@, 0, st) {
                    Result::Err(e) => Result::Err(e),
                    Result::Ok(st2) => Result::Ok(
                        emit(st2, ins1(MipsOp::Jal, ArgModel::Label(fc.name@))),
                    ),
                }
            }
        },
    }
}

/// Lowering a declaration: the name binds to its register, then the
/// initializer lowers into it.
pub open spec fn step_var_decl(v: Variable, st: CgState) -> Result<CgState, Seq<char>> {
    let (register, regs2) = reg_find_or_create(st.regs, v.name@);
    let st2 = CgState { regs: regs2, ..st };
    match v.value {
        Expr::Operand(op) => step_init_operand(op, register, st2),
        Expr::BinaryOperation(BinaryOperation::Arithmetic { lhs, operator, rhs, .. }) =>
            step_init_arith(lhs, operator, rhs, register, st2),
        Expr::BinaryOperation(
            BinaryOperation::Conditional { lhs, condition, rhs, operation_type },
        ) => step_init_cond(lhs, condition, rhs, operation_type, register, st2),
        Expr::FunctionCall(fc) => step_init_call(fc, register, st2),
    }
}

/// Short-circuit AND under a conditional jump: fall to a fresh
/// `__and_N` label when either side is zero, otherwise jump.
pub open spec fn step_and(
    lhs_arg: ArgModel,
    rhs_arg: ArgModel,
    target: Seq<char>,
    st: CgState,
) -> Result<CgState, Seq<char>> {
    if st.cond == u32::MAX {
        Result::Err("Too many generated branch labels"@)
    } else {
        let and_label = "__and_"@ + dec_rep((st.cond + 1) as nat);
        let st1 = CgState { cond: (st.cond + 1) as u32, ..st };
        let st2 = emit(st1, ins2(MipsOp::Beqz, lhs_arg, ArgModel::Label(and_label)));
        let st3 = emit(st2, ins2(MipsOp::Beqz, rhs_arg, ArgModel::Label(and_label)));
        let st4 = emit(st3, ins1(MipsOp::J, ArgModel::Label(target)));
        Result::Ok(emit(st4, TextModel::Label(and_label)))
    }
}

/// Short-circuit OR: jump as soon as either side is non-zero.
pub open spec fn step_or(
    lhs_arg: ArgModel,
    rhs_arg: ArgModel,
    target: Seq<char>,
    st: CgState,
) -> Result<CgState, Seq<char>> {
    let st1 = emit(st, ins2(MipsOp::Bnez, lhs_arg, ArgModel::Label(target)));
    Result::Ok(emit(st1, ins2(MipsOp::Bnez, rhs_arg, ArgModel::Label(target))))
}

/// The comparison or short-circuit dispatch of a conditional jump whose
/// operands resolved to `lhs_arg` and `rhs_arg`.
pub open spec fn step_cond_dispatch(
    condition: Condition,
    lhs_arg: ArgModel,
    rhs_arg: ArgModel,
    label: Seq<char>,
    st: CgState,
) -> Result<CgState, Seq<char>> {
    if condition is And {
        step_and(lhs_arg, rhs_arg, label, st)
    } else if condition is Or {
        step_or(lhs_arg, rhs_arg, label, st)
    } else {
        match cond_branch(condition) {
            Option::Some(op) => Result::Ok(
                emit(st, ins3(op, lhs_arg, rhs_arg, ArgModel::Label(label))),
            ),
            Option::None => Result::Err("Invalid binary operation for conditional jump"@),
        }
    }
}

/// Lowering `if <condition> goto <label>`.
pub open spec fn step_cond_jump(condition: Expr, label: Seq<char>, st: CgState) -> Result<
    CgState,
    Seq<char>,
> {
    match condition {
        Expr::BinaryOperation(
            BinaryOperation::Conditional { lhs, condition, rhs, operation_type },
        ) => {
            if !(operation_type is Bool) {
                Result::Err("Conditional operations must be of type bool"@)
            } else if operand_is_register(lhs) && operand_is_register(rhs) {
                match (lhs, rhs) {
                    (Operand::Identifier(ln), Operand::Identifier(rn)) => match reg_find(
                        st.regs,
                        ln@,
                    ) {
                        Option::None => Result::Err(reg_not_found_msg(ln@)),
                        Option::Some(lr) => match reg_find(st.regs, rn@) {
                            Option::None => Result::Err(reg_not_found_msg(rn@)),
                            Option::Some(rr) => step_cond_dispatch(
                                condition,
                                ArgModel::Register(lr),
                                ArgModel::Register(rr),
                                label,
                                st,
                            ),
                        },
                    },
                    _ => Result::Err("Invalid operands for conditional jump"@),
                }
            } else if operand_is_register(lhs) && !operand_is_register(rhs) {
                match lhs {
                    Operand::Identifier(ln) => match reg_find(st.regs, ln@) {
                        Option::None => Result::Err(reg_not_found_msg(ln@)),
                        Option::Some(lr) => match operand_immediate(rhs) {
                            Option::None => Result::Err(imm_err_msg(rhs)),
                            Option::Some(rv) => step_cond_dispatch(
                                condition,
                                ArgModel::Register(lr),
                                ArgModel::Immediate(rv),
                                label,
                                st,
                            ),
                        },
                    },
                    _ => Result::Err("Invalid operands for conditional jump"@),
                }
            } else {
                Result::Err("Invalid operands for conditional jump"@)
            }
        },
        Expr::BinaryOperation(BinaryOperation::Arithmetic { .. }) => Result::Err(
            "Invalid binary operation for conditional jump"@,
        ),
        Expr::Operand(op) => match op {
            Operand::Identifier(ident) => match reg_find(st.regs, ident@) {
                Option::Some(r) => Result::Ok(
                    emit(st, ins2(MipsOp::Beqz, ArgModel::Register(r), ArgModel::Label(label))),
                ),
                Option::None => Result::Err(reg_not_found_msg(ident@)),
            },
            Operand::LiteralBool(v) => if v {
                Result::Ok(emit(st, ins1(MipsOp::J, ArgModel::Label(label))))
            } else {
                Result::Ok(st)
            },
            _ => Result::Err("Invalid operand for conditional jump"@),
        },
        Expr::FunctionCall(_) => Result::Err("Invalid expression for conditional jump"@),
    }
}

/// Lowering `store`: the destination must be a dereference and the
/// source an identifier, both bound to registers.
pub open spec fn step_store(at: Operand, from: Operand, st: CgState) -> Result<CgState, Seq<char>> {
    match (at, from) {
        (Operand::Dereference(a), Operand::Identifier(b)) => match reg_find(st.regs, a@) {
            Option::None => Result::Err(reg_not_found_msg(a@)),
            Option::Some(at_reg) => match reg_find(st.regs, b@) {
                Option::None => Result::Err(reg_not_found_msg(b@)),
                Option::Some(from_reg) => Result::Ok(
                    emit(
                        st,
                        ins2(MipsOp::Sw, ArgModel::Register(from_reg), ArgModel::Register(at_reg)),
                    ),
                ),
            },
        },
        _ => Result::Err("Invalid operands for store operation"@),
    }
}

/// Lowering a call statement: built-in writes become syscalls; a
/// user-defined call loads its arguments and jumps.
pub open spec fn step_call_stmt(fc: FunctionCall, st: CgState) -> Result<CgState, Seq<char>> {
    match resolve_call(st, fc.name@) {
        Option::None => Result::Err(fn_not_found_msg(fc.name@)),
        Option::Some((fname, is_b)) => {
            if is_b {
                if fname == "write_string"@ {
                    let st1 = emit(
                        st,
                        ins2(MipsOp::Li, ArgModel::Register("$v0"@), ArgModel::Immediate(4)),
                    );
                    if fc.params@.len() != 1 {
                        Result::Err("Invalid argument for write_string"@)
                    } else {
                        let loaded = match fc.params@[0] {
                            Operand::Identifier(ident) => match reg_find(st.regs, ident@) {
                                Option::Some(r) => Result::Ok((r, st1)),
                                Option::None => Result::Err(reg_not_found_msg(ident@)),
                            },
                            Operand::LiteralStr(text) => {
                                let minted = reg_name(st.regs.len());
                                let st2 = CgState {
                                    regs: st1.regs.push((minted, minted)),
                                    ..st1
                                };
                                Result::Ok((minted, step_load_string(st2, minted, text@)))
                            },
                            _ => Result::Err("Invalid argument for write_string"@),
                        };
                        match loaded {
                            Result::Err(e) => Result::Err(e),
                            Result::Ok((r, st2)) => {
                                let st3 = emit(
                                    st2,
                                    ins2(
                                        MipsOp::Move,
                                        ArgModel::Register("$a0"@),
                                        ArgModel::Register(r),
                                    ),
                                );
                                Result::Ok(
                                    emit(st3, TextModel::Instruction(MipsOp::Syscall, Seq::empty())),
                                )
                            },
                        }
                    }
                } else if fname == "write_int"@ {
                    let st1 = emit(
                        st,
                        ins2(MipsOp::Li, ArgModel::Register("$v0"@), ArgModel::Immediate(1)),
                    );
                    if fc.params@.len() != 1 {
                        Result::Err("Invalid argument for write_int"@)
                    } else {
                        let loaded = match fc.params@[0] {
                            Operand::Identifier(ident) => match reg_find(st.regs, ident@) {
                                Option::Some(r) => Result::Ok((r, st1)),
                                Option::None => Result::Err(reg_not_found_msg(ident@)),
                            },
                            other => match operand_immediate(other) {
                                Option::None => Result::Err(imm_err_msg(other)),
                                Option::Some(v) => {
                                    let minted = reg_name(st.regs.len());
                                    let st2 = CgState {
                                        regs: st1.regs.push((minted, minted)),
                                        ..st1
                                    };
                                    Result::Ok(
                                        (
                                            minted,
                                            emit(
                                                st2,
                                                ins2(
                                                    MipsOp::Li,
                                                    ArgModel::Register(minted),
                                                    ArgModel::Immediate(v),
                                                ),
                                            ),
                                        ),
                                    )
                                },
                            },
                        };
                        match loaded {
                            Result::Err(e) => Result::Err(e),
                            Result::Ok((r, st2)) => {
                                let st3 = emit(
                                    st2,
                                    ins2(
                                        MipsOp::Move,
                                        ArgModel::Register("$a0"@),
                                        ArgModel::Register(r),
                                    ),
                                );
                                Result::Ok(
                                    emit(st3, TextModel::Instruction(MipsOp::Syscall, Seq::empty())),
                                )
                            },
                        }
                    }
                } else {
                    Result::Err("Function "@ + fc.name@ + " is not supported as a statement"@)
                }
            } else {
                match step_args(fc.params@, 0, st) {
                    Result::Err(e) => Result::Err(e),
                    Result::Ok(st2) => Result::Ok(
                        emit(st2, ins1(MipsOp::Jal, ArgModel::Label(fc.name@))),
                    ),
                }
            }
        },
    }
}

/// Lowering one statement. A function definition registers its mangled
/// `__`-prefixed name, and its block — label, lowered body, `jr $ra` —
/// goes in front of all text emitted so far.
pub open spec fn step_stmt(s: Statement, st: CgState) -> Result<CgState, Seq<char>>
    decreases s, 0nat,
{
    match s {
        Statement::VariableDeclaration(v) => step_var_decl(v, st),
        Statement::ConditionalJump { condition, label, .. } => step_cond_jump(
            condition,
            label@,
            st,
        ),
        Statement::UnconditionalJump { label, .. } => Result::Ok(
            emit(st, ins1(MipsOp::J, ArgModel::Label(label@))),
        ),
        Statement::Label { name, .. } => if name@ == "main"@ {
            Result::Err("Cannot use 'main' as a label name"@)
        } else {
            Result::Ok(emit(st, TextModel::Label(name@)))
        },
        Statement::FunctionDefinition(f) => {
            let mangled = "__"@ + f.name@;
            let st1 = CgState {
                funcs: st.funcs.push(
                    FuncModel { key: mangled, name: f.name@, is_builtin: f.is_builtin },
                ),
                text: seq![TextModel::Label(mangled)],
                ..st
            };
            match step_stmts(f.body@, st1) {
                Result::Err(e) => Result::Err(e),
                Result::Ok(st2) => Result::Ok(
                    CgState {
                        text: st2.text.push(ins1(MipsOp::Jr, ArgModel::Register("$ra"@)))
                            + st.text,
                        ..st2
                    },
                ),
            }
        },
        Statement::Store { at, from, .. } => step_store(at, from, st),
        Statement::Call(fc) => step_call_stmt(fc, st),
        Statement::NoOperation => Result::Ok(st),
    }
}

/// Lowering a statement list in order; the first failure wins.
pub open spec fn step_stmts(ss: Seq<Statement>, st: CgState) -> Result<CgState, Seq<char>>
    decreases ss, 1nat,
{
    if ss.len() == 0 {
        Result::Ok(st)
    } else {
        match step_stmt(ss[0], st) {
            Result::Err(e) => Result::Err(e),
            Result::Ok(st2) => step_stmts(ss.drop_first(), st2),
        }
    }
}

/// Lowering a whole program: a context at the top level opens with the
/// `main:` entrypoint label, then the statements lower in order.
pub open spec fn gen_model(ast: Seq<Statement>, st: CgState) -> Result<CgState, Seq<char>> {
    let st1 = if st.scope == 0 {
        emit(st, TextModel::Label("main"@))
    } else {
        st
    };
    step_stmts(ast, st1)
}

} // verus!
