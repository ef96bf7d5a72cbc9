//! The MIPS lowering: virtual register allocation, string interning and
//! the statement-by-statement code generator.

use vstd::prelude::*;
use vstd::string::*;

use crate::ast::{BinaryOperation, Condition, Expr, Function, FunctionCall, Operand, Operator, Statement, VarType, Variable};
use crate::text::str_eq;
use crate::codegen::context::Context;
use crate::codegen::context::reg_lookup;
use crate::mips::{
    asciiz_count, before_first_main, intern_index, intern_label_index, interned, is_asciiz_of,
    is_named_label, lemma_intern_index_count, lemma_intern_push, main_labels, DataKind,
    DataSection, DataValue, DataVariable, MipsArg, MipsOp, MipsStatement, TextSection,
};
use crate::numerals::{dec_rep, prefixed_dec};
use crate::text::string_eq_str;
use crate::codegen::lowering::{
    arg_model, arith_ins, cond_branch, cond_set, data_model, emit, funcs_model, imm_err_msg, ins1,
    ins2, ins3, intern_data, intern_label, lemma_data_find, lemma_data_model_push,
    lemma_func_find, lemma_funcs_model_push, lemma_reg_find, lemma_regs_model_push,
    lemma_text_model_concat, lemma_text_model_push, reg_find, reg_find_or_create, regs_model,
    state_of, step_and, step_args, step_call_stmt, step_cond_jump, step_init_arith,
    step_init_call, step_init_cond, step_init_operand, step_or, step_store, step_stmt, step_stmts,
    step_var_decl, text_model, ArgModel, CgState, FuncModel, TextModel,
};

verus! {

/// The name of the `N`-th minted temporary register: `$tN`.
pub open spec fn reg_name(n: nat) -> Seq<char> {
    "$t"@ + dec_rep(n)
}

/// The register a declaration binds its name to: the existing binding,
/// or the next `$t<N>` when the name is new.
pub open spec fn decl_reg(register_map: Seq<(String, String)>, name: Seq<char>) -> Seq<char> {
    match reg_lookup(register_map, name) {
        Option::Some(r) => r,
        Option::None => reg_name(register_map.len()),
    }
}

/// The data label of the string interned at index `i`: `str_i`.
pub open spec fn str_label_name(i: nat) -> Seq<char> {
    "str_"@ + dec_rep(i)
}

// ---------------------------------------------------------------------
// Statement shapes
// ---------------------------------------------------------------------

pub open spec fn arg_is_register(a: MipsArg, name: Seq<char>) -> bool {
    a matches MipsArg::Register(r) && r@ == name
}

pub open spec fn arg_is_label(a: MipsArg, name: Seq<char>) -> bool {
    a matches MipsArg::Label(l) && l@ == name
}

pub open spec fn arg_is_imm(a: MipsArg, v: u32) -> bool {
    a matches MipsArg::Immediate(x) && x == v
}

/// `li <reg>, <imm>`.
pub open spec fn stmt_is_li(s: MipsStatement, reg: Seq<char>, v: u32) -> bool {
    s matches MipsStatement::Instruction(op, args) && op == MipsOp::Li && args@.len() == 2
        && arg_is_register(args@[0], reg) && arg_is_imm(args@[1], v)
}

/// `la <reg>, <label>`.
pub open spec fn stmt_is_la(s: MipsStatement, reg: Seq<char>, label: Seq<char>) -> bool {
    s matches MipsStatement::Instruction(op, args) && op == MipsOp::La && args@.len() == 2
        && arg_is_register(args@[0], reg) && arg_is_label(args@[1], label)
}

/// `j <label>`.
pub open spec fn stmt_is_jump(s: MipsStatement, label: Seq<char>) -> bool {
    s matches MipsStatement::Instruction(op, args) && op == MipsOp::J && args@.len() == 1
        && arg_is_label(args@[0], label)
}

/// `beqz <reg>, <label>`.
pub open spec fn stmt_is_beqz(s: MipsStatement, reg: Seq<char>, label: Seq<char>) -> bool {
    s matches MipsStatement::Instruction(op, args) && op == MipsOp::Beqz && args@.len() == 2
        && arg_is_register(args@[0], reg) && arg_is_label(args@[1], label)
}

/// `sw <from>, <at>`.
pub open spec fn stmt_is_sw(s: MipsStatement, from_reg: Seq<char>, at_reg: Seq<char>) -> bool {
    s matches MipsStatement::Instruction(op, args) && op == MipsOp::Sw && args@.len() == 2
        && arg_is_register(args@[0], from_reg) && arg_is_register(args@[1], at_reg)
}

/// Pushing a statement adds one `main:` exactly when it is that label.
pub proof fn lemma_main_labels_push(ss: Seq<MipsStatement>, x: MipsStatement)
    ensures
        main_labels(ss.push(x)) == main_labels(ss) + if crate::mips::is_named_label(
            x,
            "main"@,
        ) {
            1nat
        } else {
            0nat
        },
{
    assert(ss.push(x).drop_last() =~= ss);
    assert(ss.push(x).last() == x);
}

/// A label that starts with an underscore is not `main`.
pub proof fn lemma_underscore_not_main(l: Seq<char>)
    requires
        l.len() > 0,
        l[0] == '_',
    ensures
        l != "main"@,
{
    reveal_strlit("main");
    if l == "main"@ {
        assert(l[0] == "main"@[0]);
    }
}

/// Text that only grew at the end keeps every label that preceded the
/// first `main:` in place.
pub proof fn lemma_bfm_grow(a: Seq<MipsStatement>, b: Seq<MipsStatement>, name: Seq<char>)
    requires
        a.len() <= b.len(),
        b.take(a.len() as int) == a,
        before_first_main(a, name),
    ensures
        before_first_main(b, name),
{
    assert(b =~= a + b.skip(a.len() as int));
    crate::mips::lemma_bfm_append(a, b.skip(a.len() as int), name);
}

// ---------------------------------------------------------------------
// Registers
// ---------------------------------------------------------------------

/// The register bound to `name`, minting `$t<N>` (N the current map
/// size) when the name is unbound. One source name therefore maps to
/// exactly one register for the whole compilation unit.
pub fn find_or_create_reg(register_map: &mut Vec<(String, String)>, name: String) -> (r: String)
    ensures
        reg_lookup(final(register_map)@, name@) == Option::Some(r@),
        reg_find_or_create(regs_model(old(register_map)@), name@) == (
            r@,
            regs_model(final(register_map)@),
        ),
        match reg_lookup(old(register_map)@, name@) {
            Option::Some(r0) => final(register_map)@ == old(register_map)@ && r@ == r0,
            Option::None => final(register_map)@.len() == old(register_map)@.len() + 1
                && final(register_map)@.drop_last() == old(register_map)@ && r@ == reg_name(
                old(register_map)@.len(),
            )
                && final(register_map)@.last().0@ == name@ && final(register_map)@.last().1@
                == r@,
        },
{
    let ghost m0 = register_map@;
    proof {
        assert(m0.skip(0) =~= m0);
    }
    let mut i: usize = 0;
    while i < register_map.len()
        invariant
            register_map@ == m0,
            i <= m0.len(),
            reg_lookup(m0, name@) == reg_lookup(m0.skip(i as int), name@),
        decreases m0.len() - i,
    {
        proof {
            let tail = m0.skip(i as int);
            assert(tail[0] == m0[i as int]);
            assert(tail.drop_first() =~= m0.skip(i + 1 as int));
        }
        if register_map[i].0.eq(&name) {
            proof {
                lemma_reg_find(m0, name@);
            }
            return register_map[i].1.clone();
        }
        i = i + 1;
    }
    proof {
        assert(m0.skip(m0.len() as int) =~= Seq::<(String, String)>::empty());
    }
    let register = prefixed_dec("$t", register_map.len() as u64);
    proof {
        reveal_strlit("$t");
        lemma_reg_find(m0, name@);
    }
    let result = register.clone();
    let ghost entry = (name, register);
    register_map.push((name, register));
    proof {
        let m1 = register_map@;
        assert(m1.drop_last() =~= m0);
        lemma_reg_lookup_last(m1, name@);
        lemma_regs_model_push(m0, entry);
        assert(regs_model(m0).len() == m0.len());
    }
    result
}

/// A map whose last entry binds `name` resolves `name`, when no earlier
/// entry binds it.
proof fn lemma_reg_lookup_last(m: Seq<(String, String)>, name: Seq<char>)
    requires
        m.len() > 0,
        m.last().0@ == name,
        reg_lookup(m.drop_last(), name) is None,
    ensures
        reg_lookup(m, name) == Option::Some(m.last().1@),
    decreases m.len(),
{
    if m.len() == 1 {
        assert(m[0] == m.last());
    } else {
        assert(m.drop_last()[0] == m[0]);
        if m[0].0@ == name {
            assert(reg_lookup(m.drop_last(), name) == Option::Some(m.drop_last()[0].1@));
        } else {
            assert(m.drop_first().drop_last() =~= m.drop_last().drop_first());
            assert(m.drop_first().last() == m.last());
            lemma_reg_lookup_last(m.drop_first(), name);
        }
    }
}

/// Mints a fresh `$t<N>` register bound to its own name, for
/// intermediate values that belong to no source variable.
pub fn new_register(register_map: &mut Vec<(String, String)>) -> (r: String)
    ensures
        r@ == reg_name(old(register_map)@.len()),
        final(register_map)@.len() == old(register_map)@.len() + 1,
        final(register_map)@.drop_last() == old(register_map)@,
        regs_model(final(register_map)@) == regs_model(old(register_map)@).push((r@, r@)),
{
    let ghost m0 = register_map@;
    let register = prefixed_dec("$t", register_map.len() as u64);
    proof {
        reveal_strlit("$t");
    }
    let result = register.clone();
    register_map.push((register.clone(), register));
    proof {
        assert(regs_model(register_map@) =~= regs_model(m0).push((result@, result@)));
    }
    result
}

/// Whether an operand names a register (an identifier or dereference).
pub fn is_register(value: &Operand) -> (r: bool)
    ensures
        r == operand_is_register(*value),
{
    match value {
        Operand::Identifier(_) => true,
        Operand::Dereference(_) => true,
        _ => false,
    }
}

/// Whether an operand is a literal, materializable as an immediate.
pub fn is_immediate(value: &Operand) -> (r: bool)
    ensures
        r == !operand_is_register(*value),
{
    match value {
        Operand::Identifier(_) => false,
        Operand::Dereference(_) => false,
        _ => true,
    }
}

pub open spec fn operand_is_register(value: Operand) -> bool {
    value is Identifier || value is Dereference
}

/// The immediate value of a literal operand, if the literal fits a
/// 32-bit register: 64-bit literals are rejected, as are floats and
/// strings; booleans load as 1 or 0.
pub open spec fn operand_immediate(value: Operand) -> Option<u32> {
    match value {
        Operand::LiteralI8(v) => Option::Some(v as u32),
        Operand::LiteralI16(v) => Option::Some(v as u32),
        Operand::LiteralI32(v) => Option::Some(v as u32),
        Operand::LiteralU8(v) => Option::Some(v as u32),
        Operand::LiteralU16(v) => Option::Some(v as u32),
        Operand::LiteralU32(v) => Option::Some(v),
        Operand::LiteralBool(v) => Option::Some(
            if v {
                1
            } else {
                0
            },
        ),
        _ => Option::None,
    }
}


/// Executable form of `operand_immediate`; a value that cannot live in
/// a 32-bit register is reported with the fitting message.
pub fn as_immediate(value: &Operand) -> (r: Result<u32, String>)
    ensures
        match operand_immediate(*value) {
            Option::Some(v) => r == Result::<u32, String>::Ok(v),
            Option::None => r matches Result::Err(m) && m@ == imm_err_msg(*value),
        },
{
    match value {
        Operand::LiteralI8(v) => Result::Ok(#[verifier::truncate] (*v as u32)),
        Operand::LiteralI16(v) => Result::Ok(#[verifier::truncate] (*v as u32)),
        Operand::LiteralI32(v) => Result::Ok(#[verifier::truncate] (*v as u32)),
        Operand::LiteralU8(v) => Result::Ok(*v as u32),
        Operand::LiteralU16(v) => Result::Ok(*v as u32),
        Operand::LiteralU32(v) => Result::Ok(*v),
        Operand::LiteralBool(v) => Result::Ok(
            if *v {
                1
            } else {
                0
            },
        ),
        Operand::LiteralI64(_) => Result::Err(
            String::from_str("Cannot store a 64-bit integer in a 32-bit register"),
        ),
        Operand::LiteralU64(_) => Result::Err(
            String::from_str("Cannot store a 64-bit integer in a 32-bit register"),
        ),
        _ => Result::Err(String::from_str("Invalid operand for an immediate value")),
    }
}

/// The name an identifier operand holds, for register lookup.
pub fn as_identifier(value: &Operand) -> (r: Option<&String>)
    ensures
        match r {
            Option::Some(n) => *value matches Operand::Identifier(m) && m == *n,
            Option::None => !(*value matches Operand::Identifier(_)),
        },
{
    match value {
        Operand::Identifier(n) => Option::Some(n),
        _ => Option::None,
    }
}

/// Finds the register already bound to a name, without minting one.
pub fn lookup_reg(register_map: &Vec<(String, String)>, name: &str) -> (r: Option<String>)
    ensures
        match r {
            Option::Some(reg) => reg_lookup(register_map@, name@) == Option::Some(reg@)
                && reg_find(regs_model(register_map@), name@) == Option::Some(reg@),
            Option::None => reg_lookup(register_map@, name@) is None && reg_find(
                regs_model(register_map@),
                name@,
            ) is None,
        },
{
    proof {
        assert(register_map@.skip(0) =~= register_map@);
        lemma_reg_find(register_map@, name@);
    }
    let mut i: usize = 0;
    while i < register_map.len()
        invariant
            i <= register_map@.len(),
            reg_lookup(register_map@, name@) == reg_lookup(register_map@.skip(i as int), name@),
        decreases register_map@.len() - i,
    {
        proof {
            let tail = register_map@.skip(i as int);
            assert(tail[0] == register_map@[i as int]);
            assert(tail.drop_first() =~= register_map@.skip(i + 1 as int));
        }
        if string_eq_str(&register_map[i].0, name) {
            proof {
                lemma_reg_find(register_map@, name@);
            }
            return Option::Some(register_map[i].1.clone());
        }
        i = i + 1;
    }
    proof {
        assert(register_map@.skip(register_map@.len() as int) =~= Seq::<
            (String, String),
        >::empty());
        lemma_reg_find(register_map@, name@);
    }
    Option::None
}

// ---------------------------------------------------------------------
// Emitting statements
// ---------------------------------------------------------------------

/// Appends one instruction; instructions never add a `main:` label.
pub fn push_instr(text: &mut TextSection, op: MipsOp, args: Vec<MipsArg>)
    ensures
        final(text).statements@ == old(text).statements@.push(
            MipsStatement::Instruction(op, args),
        ),
        text_model(final(text).statements@) == text_model(old(text).statements@).push(
            TextModel::Instruction(op, args@.map_values(|a: MipsArg| arg_model(a))),
        ),
        main_labels(final(text).statements@) == main_labels(old(text).statements@),
        forall|k: int|
            0 <= k < old(text).statements@.len() ==> #[trigger] final(text).statements@[k]
                == old(text).statements@[k],
{
    let ghost t0 = text.statements@;
    let ghost s = MipsStatement::Instruction(op, args);
    text.statements.push(MipsStatement::Instruction(op, args));
    proof {
        lemma_main_labels_push(t0, s);
        lemma_text_model_push(t0, s);
    }
}

/// Appends a label.
pub fn push_label(text: &mut TextSection, name: String)
    ensures
        final(text).statements@ == old(text).statements@.push(MipsStatement::Label(name)),
        text_model(final(text).statements@) == text_model(old(text).statements@).push(
            TextModel::Label(name@),
        ),
        main_labels(final(text).statements@) == main_labels(old(text).statements@) + if name@
            == "main"@ {
            1nat
        } else {
            0nat
        },
        forall|k: int|
            0 <= k < old(text).statements@.len() ==> #[trigger] final(text).statements@[k]
                == old(text).statements@[k],
{
    let ghost t0 = text.statements@;
    let ghost s = MipsStatement::Label(name);
    text.statements.push(MipsStatement::Label(name));
    proof {
        lemma_main_labels_push(t0, s);
        lemma_text_model_push(t0, s);
    }
}

/// A one-argument list.
pub fn args1(a: MipsArg) -> (r: Vec<MipsArg>)
    ensures
        r@ =~= seq![a],
        r@.map_values(|x: MipsArg| arg_model(x)) == seq![arg_model(a)],
{
    let mut v: Vec<MipsArg> = Vec::new();
    v.push(a);
    proof {
        assert(v@.map_values(|x: MipsArg| arg_model(x)) =~= seq![arg_model(v@[0])]);
    }
    v
}

/// A two-argument list.
pub fn args2(a: MipsArg, b: MipsArg) -> (r: Vec<MipsArg>)
    ensures
        r@ =~= seq![a, b],
        r@.map_values(|x: MipsArg| arg_model(x)) == seq![arg_model(a), arg_model(b)],
{
    let mut v: Vec<MipsArg> = Vec::new();
    v.push(a);
    v.push(b);
    proof {
        assert(v@.map_values(|x: MipsArg| arg_model(x)) =~= seq![
            arg_model(v@[0]),
            arg_model(v@[1]),
        ]);
    }
    v
}

/// A three-argument list.
pub fn args3(a: MipsArg, b: MipsArg, c: MipsArg) -> (r: Vec<MipsArg>)
    ensures
        r@ =~= seq![a, b, c],
        r@.map_values(|x: MipsArg| arg_model(x)) == seq![arg_model(a), arg_model(b), arg_model(c)],
{
    let mut v: Vec<MipsArg> = Vec::new();
    v.push(a);
    v.push(b);
    v.push(c);
    proof {
        assert(v@.map_values(|x: MipsArg| arg_model(x)) =~= seq![
            arg_model(v@[0]),
            arg_model(v@[1]),
            arg_model(v@[2]),
        ]);
    }
    v
}

/// Emits `li <register>, <value>`.
pub fn load_immediate(text_section: &mut TextSection, register: String, value: u32)
    ensures
        text_model(final(text_section).statements@) == text_model(
            old(text_section).statements@,
        ).push(ins2(MipsOp::Li, ArgModel::Register(register@), ArgModel::Immediate(value))),
        final(text_section).statements@.len() == old(text_section).statements@.len() + 1,
        final(text_section).statements@.drop_last() == old(text_section).statements@,
        stmt_is_li(final(text_section).statements@.last(), register@, value),
        main_labels(final(text_section).statements@) == main_labels(
            old(text_section).statements@,
        ),
        forall|k: int|
            0 <= k < old(text_section).statements@.len()
                ==> #[trigger] final(text_section).statements@[k]
                == old(text_section).statements@[k],
{
    let ghost reg_view = register@;
    let args = args2(MipsArg::Register(register), MipsArg::Immediate(value));
    push_instr(text_section, MipsOp::Li, args);
}

/// Emits `li` into a freshly minted register and hands the register
/// back.
pub fn load_immediate_to_new_register(
    register_map: &mut Vec<(String, String)>,
    text_section: &mut TextSection,
    value: u32,
) -> (r: String)
    ensures
        r@ == reg_name(old(register_map)@.len()),
        regs_model(final(register_map)@) == regs_model(old(register_map)@).push((r@, r@)),
        text_model(final(text_section).statements@) == text_model(
            old(text_section).statements@,
        ).push(ins2(MipsOp::Li, ArgModel::Register(r@), ArgModel::Immediate(value))),
        final(register_map)@.len() == old(register_map)@.len() + 1,
        final(text_section).statements@.len() == old(text_section).statements@.len() + 1,
        final(text_section).statements@.drop_last() == old(text_section).statements@,
        stmt_is_li(final(text_section).statements@.last(), r@, value),
        main_labels(final(text_section).statements@) == main_labels(
            old(text_section).statements@,
        ),
        forall|k: int|
            0 <= k < old(text_section).statements@.len()
                ==> #[trigger] final(text_section).statements@[k]
                == old(text_section).statements@[k],
{
    let register = new_register(register_map);
    let result = register.clone();
    load_immediate(text_section, register, value);
    result
}

/// Interns a string literal into the data section and emits
/// `la <register>, str_<i>`.
///
/// An existing `.asciiz` entry with the same text is reused; otherwise
/// a fresh entry named after the current entry count is appended. The
/// emitted label is `str_<i>` for the interning index either way, so
/// equal literals share one entry and one label.
pub fn load_string(
    text_section: &mut TextSection,
    data_section: &mut DataSection,
    register: String,
    value: String,
)
    requires
        interned(old(data_section).variables@),
    ensures
        interned(final(data_section).variables@),
        data_model(final(data_section).variables@) == intern_data(
            data_model(old(data_section).variables@),
            value@,
        ),
        text_model(final(text_section).statements@) == text_model(
            old(text_section).statements@,
        ).push(
            ins2(
                MipsOp::La,
                ArgModel::Register(register@),
                ArgModel::Label(intern_label(data_model(old(data_section).variables@), value@)),
            ),
        ),
        match intern_index(old(data_section).variables@, value@) {
            Option::Some(_) => final(data_section).variables@ == old(data_section).variables@,
            Option::None => final(data_section).variables@.len() == old(
                data_section).variables@.len() + 1 && final(data_section).variables@.drop_last()
                == old(data_section).variables@ && is_asciiz_of(
                final(data_section).variables@.last(),
                value@,
            ) && final(data_section).variables@.last().name@ == str_label_name(
                old(data_section).variables@.len(),
            ),
        },
        asciiz_count(final(data_section).variables@, value@) == 1,
        final(text_section).statements@.len() == old(text_section).statements@.len() + 1,
        final(text_section).statements@.drop_last() == old(text_section).statements@,
        stmt_is_la(
            final(text_section).statements@.last(),
            register@,
            str_label_name(intern_label_index(old(data_section).variables@, value@) as nat),
        ),
        main_labels(final(text_section).statements@) == main_labels(
            old(text_section).statements@,
        ),
        forall|k: int|
            0 <= k < old(text_section).statements@.len()
                ==> #[trigger] final(text_section).statements@[k]
                == old(text_section).statements@[k],
{
    let ghost vars0 = data_section.variables@;
    proof {
        reveal_strlit("str_");
    }
    proof {
        lemma_data_find(vars0, value@);
        assert(data_model(vars0).len() == vars0.len());
    }
    match find_asciiz(data_section, &value) {
        Option::Some(i) => {
            let label = prefixed_dec("str_", i as u64);
            proof {
                lemma_intern_index_count(vars0, value@);
            }
            let args = args2(MipsArg::Register(register), MipsArg::Label(label));
            push_instr(text_section, MipsOp::La, args);
        },
        Option::None => {
            proof {
                lemma_intern_index_count(vars0, value@);
            }
            let label = prefixed_dec("str_", data_section.variables.len() as u64);
            let entry = DataVariable {
                name: label.clone(),
                kind: DataKind::Asciiz,
                value: DataValue::Str(value),
            };
            let ghost e = entry;
            data_section.variables.push(entry);
            proof {
                lemma_data_model_push(vars0, e);
                lemma_intern_push(vars0, e.value->Str_0@, e);
                assert forall|w: Seq<char>| #[trigger]
                    asciiz_count(data_section.variables@, w) <= 1 by {
                    lemma_intern_push(vars0, w, e);
                    if is_asciiz_of(e, w) {
                        lemma_intern_index_count(vars0, w);
                    }
                }
            }
            let args = args2(MipsArg::Register(register), MipsArg::Label(label));
            push_instr(text_section, MipsOp::La, args);
        },
    }
}

/// The index of the `.asciiz` entry holding exactly this text, if one
/// exists.
fn find_asciiz(data_section: &DataSection, value: &String) -> (r: Option<usize>)
    ensures
        match r {
            Option::Some(i) => i < data_section.variables@.len() && intern_index(
                data_section.variables@,
                value@,
            ) == Option::Some(i as int),
            Option::None => intern_index(data_section.variables@, value@) is None,
        },
{
    let ghost vars = data_section.variables@;
    proof {
        assert(vars.skip(0) =~= vars);
    }
    let mut i: usize = 0;
    while i < data_section.variables.len()
        invariant
            vars == data_section.variables@,
            i <= vars.len(),
            intern_index(vars, value@) == match intern_index(vars.skip(i as int), value@) {
                Option::Some(k) => Option::Some(k + i),
                Option::None => Option::None,
            },
        decreases vars.len() - i,
    {
        proof {
            let tail = vars.skip(i as int);
            assert(tail[0] == vars[i as int]);
            assert(tail.drop_first() =~= vars.skip(i + 1 as int));
        }
        let entry = &data_section.variables[i];
        let matches_here = match (&entry.kind, &entry.value) {
            (DataKind::Asciiz, DataValue::Str(existing)) => existing.eq(value),
            _ => false,
        };
        if matches_here {
            return Option::Some(i);
        }
        i = i + 1;
    }
    proof {
        assert(vars.skip(vars.len() as int) =~= Seq::<DataVariable>::empty());
    }
    Option::None
}

/// String interning law: once a text has been interned, interning it
/// again finds the same entry, under the same `str_<i>` label, and the
/// data section holds exactly one `.asciiz` entry with that text.
pub proof fn lemma_string_interning(vars: Seq<DataVariable>, v: DataVariable, value: Seq<char>)
    requires
        interned(vars),
        intern_index(vars, value) is None,
        is_asciiz_of(v, value),
    ensures
        interned(vars.push(v)),
        asciiz_count(vars.push(v), value) == 1,
        intern_label_index(vars, value) == vars.len(),
        intern_label_index(vars.push(v), value) == vars.len(),
{
    lemma_intern_index_count(vars, value);
    lemma_intern_push(vars, value, v);
    assert forall|w: Seq<char>| #[trigger] asciiz_count(vars.push(v), w) <= 1 by {
        lemma_intern_push(vars, w, v);
        if is_asciiz_of(v, w) {
            lemma_intern_index_count(vars, w);
        }
    }
}


// ---------------------------------------------------------------------
// The generation frame
// ---------------------------------------------------------------------

/// What every lowering step preserves: the data section stays interned,
/// no `main:` label is added or removed, labels that preceded the first
/// `main:` still do, the function map only grows, and the label of
/// every newly registered function precedes the first `main:`.
pub open spec fn frame(pre: Context, post: Context) -> bool {
    &&& interned(post.data_section.variables@)
    &&& main_labels(post.text_section.statements@) == main_labels(pre.text_section.statements@)
    &&& (forall|nm: Seq<char>|
        before_first_main(pre.text_section.statements@, nm) ==> #[trigger] before_first_main(
            post.text_section.statements@,
            nm,
        ))
    &&& post.function_map@.len() >= pre.function_map@.len()
    &&& (forall|k: int|
        0 <= k < pre.function_map@.len() ==> post.function_map@[k] == pre.function_map@[k])
    &&& (forall|k: int|
        pre.function_map@.len() <= k < post.function_map@.len() ==> before_first_main(
            post.text_section.statements@,
            (#[trigger] post.function_map@[k]).0@,
        ))
    &&& post.scope_level == pre.scope_level
}

pub proof fn lemma_frame_trans(a: Context, b: Context, c: Context)
    requires
        frame(a, b),
        frame(b, c),
    ensures
        frame(a, c),
{
    assert forall|k: int|
        a.function_map@.len() <= k < c.function_map@.len() implies before_first_main(
        c.text_section.statements@,
        (#[trigger] c.function_map@[k]).0@,
    ) by {
        if k < b.function_map@.len() {
            assert(before_first_main(b.text_section.statements@, b.function_map@[k].0@));
            assert(c.function_map@[k] == b.function_map@[k]);
        }
    }
}

/// A step that only appended non-`main:` text and left the function map
/// alone satisfies the frame.
pub proof fn lemma_frame_local(pre: Context, post: Context)
    requires
        interned(post.data_section.variables@),
        pre.text_section.statements@.len() <= post.text_section.statements@.len(),
        post.text_section.statements@.take(pre.text_section.statements@.len() as int)
            == pre.text_section.statements@,
        main_labels(post.text_section.statements@) == main_labels(pre.text_section.statements@),
        post.function_map@ == pre.function_map@,
        post.scope_level == pre.scope_level,
    ensures
        frame(pre, post),
{
    assert forall|nm: Seq<char>|
        before_first_main(pre.text_section.statements@, nm) implies #[trigger] before_first_main(
        post.text_section.statements@,
        nm,
    ) by {
        lemma_bfm_grow(pre.text_section.statements@, post.text_section.statements@, nm);
    }
}

/// Pushing a `Space` entry cannot break interning.
pub proof fn lemma_interned_push_space(vars: Seq<DataVariable>, v: DataVariable)
    requires
        interned(vars),
        v.kind != DataKind::Asciiz,
    ensures
        interned(vars.push(v)),
{
    assert forall|w: Seq<char>| #[trigger] asciiz_count(vars.push(v), w) <= 1 by {
        lemma_intern_push(vars, w, v);
    }
}

// ---------------------------------------------------------------------
// Operator selection
// ---------------------------------------------------------------------

/// The instruction for an arithmetic operator.
fn arith_op(operator: &Operator) -> (r: MipsOp)
    ensures
        r == arith_ins(*operator),
{
    match operator {
        Operator::Add => MipsOp::Add,
        Operator::Sub => MipsOp::Sub,
        Operator::Mul => MipsOp::Mul,
        Operator::Div => MipsOp::Div,
    }
}

/// The set-on-comparison instruction for a condition; the logical
/// connectives have none.
fn cond_set_op(condition: &Condition) -> (r: Option<MipsOp>)
    ensures
        r == cond_set(*condition),
{
    match condition {
        Condition::LessThan => Option::Some(MipsOp::SetLt),
        Condition::GreaterThan => Option::Some(MipsOp::SetGt),
        Condition::LessThanOrEqual => Option::Some(MipsOp::SetLe),
        Condition::GreaterThanOrEqual => Option::Some(MipsOp::SetGe),
        Condition::Equal => Option::Some(MipsOp::SetEq),
        Condition::NotEqual => Option::Some(MipsOp::SetNe),
        Condition::And => Option::None,
        Condition::Or => Option::None,
    }
}

/// The branch instruction for a comparison; the logical connectives
/// lower by short-circuiting instead.
fn cond_branch_op(condition: &Condition) -> (r: Option<MipsOp>)
    ensures
        r == cond_branch(*condition),
{
    match condition {
        Condition::LessThan => Option::Some(MipsOp::Blt),
        Condition::GreaterThan => Option::Some(MipsOp::Bgt),
        Condition::LessThanOrEqual => Option::Some(MipsOp::Ble),
        Condition::GreaterThanOrEqual => Option::Some(MipsOp::Bge),
        Condition::Equal => Option::Some(MipsOp::Beq),
        Condition::NotEqual => Option::Some(MipsOp::Bne),
        Condition::And => Option::None,
        Condition::Or => Option::None,
    }
}

// ---------------------------------------------------------------------
// Variable declarations
// ---------------------------------------------------------------------

/// Lowers an operand initializer into `register`.
///
/// A `u64` literal cannot live in a 32-bit register and is rejected
/// with exactly that message; an `i64` literal is truncated, as the
/// initialization path always has.
fn lower_init_operand(op: &Operand, register: String, context: &mut Context) -> (r: Result<
    (),
    String,
>)
    requires
        old(context).wf(),
    ensures
        final(context).wf(),
        r is Ok ==> frame(*old(context), *final(context)),
        match step_init_operand(*op, register@, state_of(*old(context))) {
            Result::Ok(m) => r is Ok && state_of(*final(context)) == m,
            Result::Err(e) => r matches Result::Err(msg) && msg@ == e,
        },
        op matches Operand::LiteralU64(_) ==> (r matches Result::Err(m) && m@
            == "Cannot store a 64-bit integer in a 32-bit register"@),
        final(context).register_map@ == old(context).register_map@,
        match operand_immediate(*op) {
            Option::Some(v) => r is Ok && final(context).text_section.statements@.len() == old(
                context,
            ).text_section.statements@.len() + 1 && stmt_is_li(
                final(context).text_section.statements@.last(),
                register@,
                v,
            ),
            Option::None => true,
        },
{
    let ghost c0 = *context;
    match op {
        Operand::LiteralU64(_) => {
            return Result::Err(
                String::from_str("Cannot store a 64-bit integer in a 32-bit register"),
            );
        },
        Operand::LiteralI64(v) => {
            load_immediate(&mut context.text_section, register, #[verifier::truncate] (*v
                as u32));
        },
        Operand::LiteralStr(value) => {
            load_string(
                &mut context.text_section,
                &mut context.data_section,
                register,
                value.clone(),
            );
        },
        Operand::Identifier(name) => {
            let src = match lookup_reg(&context.register_map, name.as_str()) {
                Option::Some(reg) => reg,
                Option::None => {
                    return Result::Err(
                        crate::text::concat3("Register ", name.as_str(), " not found"),
                    );
                },
            };
            let args = args2(MipsArg::Register(register), MipsArg::Register(src));
            push_instr(&mut context.text_section, MipsOp::Move, args);
        },
        Operand::Dereference(_) => {
            return Result::Err(
                String::from_str("Dereference initialization is not supported"),
            );
        },
        Operand::LiteralF32(_) => {
            return Result::Err(
                String::from_str("Floating-point code generation is not supported"),
            );
        },
        Operand::LiteralF64(_) => {
            return Result::Err(
                String::from_str("Floating-point code generation is not supported"),
            );
        },
        _ => {
            let value = match as_immediate(op) {
                Result::Ok(v) => v,
                Result::Err(m) => {
                    return Result::Err(m);
                },
            };
            load_immediate(&mut context.text_section, register, value);
        },
    }
    proof {
        assert(context.text_section.statements@.take(c0.text_section.statements@.len() as int)
            =~= c0.text_section.statements@);
        lemma_frame_local(c0, *context);
    }
    Result::Ok(())
}

/// Lowers an arithmetic initializer. No instruction takes an immediate
/// on the left of a register, so that shape is rejected.
fn lower_init_arith(
    lhs: &Operand,
    operator: &Operator,
    rhs: &Operand,
    register: String,
    context: &mut Context,
) -> (r: Result<(), String>)
    requires
        old(context).wf(),
    ensures
        final(context).wf(),
        r is Ok ==> frame(*old(context), *final(context)),
        match step_init_arith(*lhs, *operator, *rhs, register@, state_of(*old(context))) {
            Result::Ok(m) => r is Ok && state_of(*final(context)) == m,
            Result::Err(e) => r matches Result::Err(msg) && msg@ == e,
        },
        (!operand_is_register(*lhs) && operand_is_register(*rhs)) ==> (r matches Result::Err(m)
            && m@ == "Invalid operands for arithmetic operation"@),
{
    let ghost c0 = *context;
    let op = arith_op(operator);
    if is_register(lhs) && is_register(rhs) {
        let lhs_name = match as_identifier(lhs) {
            Option::Some(n) => n,
            Option::None => {
                return Result::Err(String::from_str("Invalid operands for arithmetic operation"));
            },
        };
        let rhs_name = match as_identifier(rhs) {
            Option::Some(n) => n,
            Option::None => {
                return Result::Err(String::from_str("Invalid operands for arithmetic operation"));
            },
        };
        let lhs_register = match lookup_reg(&context.register_map, lhs_name.as_str()) {
            Option::Some(reg) => reg,
            Option::None => {
                return Result::Err(
                    crate::text::concat3("Register ", lhs_name.as_str(), " not found"),
                );
            },
        };
        let rhs_register = match lookup_reg(&context.register_map, rhs_name.as_str()) {
            Option::Some(reg) => reg,
            Option::None => {
                return Result::Err(
                    crate::text::concat3("Register ", rhs_name.as_str(), " not found"),
                );
            },
        };
        let args = args3(
            MipsArg::Register(register),
            MipsArg::Register(lhs_register),
            MipsArg::Register(rhs_register),
        );
        push_instr(&mut context.text_section, op, args);
    } else if is_register(lhs) && is_immediate(rhs) {
        let lhs_name = match as_identifier(lhs) {
            Option::Some(n) => n,
            Option::None => {
                return Result::Err(String::from_str("Invalid operands for arithmetic operation"));
            },
        };
        let lhs_register = match lookup_reg(&context.register_map, lhs_name.as_str()) {
            Option::Some(reg) => reg,
            Option::None => {
                return Result::Err(
                    crate::text::concat3("Register ", lhs_name.as_str(), " not found"),
                );
            },
        };
        let rhs_value = match as_immediate(rhs) {
            Result::Ok(v) => v,
            Result::Err(m) => {
                return Result::Err(m);
            },
        };
        let args = args3(
            MipsArg::Register(register),
            MipsArg::Register(lhs_register),
            MipsArg::Immediate(rhs_value),
        );
        push_instr(&mut context.text_section, op, args);
    } else if is_immediate(lhs) && is_immediate(rhs) {
        let rhs_value = match as_immediate(rhs) {
            Result::Ok(v) => v,
            Result::Err(m) => {
                return Result::Err(m);
            },
        };
        let lhs_value = match as_immediate(lhs) {
            Result::Ok(v) => v,
            Result::Err(m) => {
                return Result::Err(m);
            },
        };
        // no instruction adds two immediates: materialize the left one
        let lhs_register = load_immediate_to_new_register(
            &mut context.register_map,
            &mut context.text_section,
            lhs_value,
        );
        let args = args3(
            MipsArg::Register(register),
            MipsArg::Register(lhs_register),
            MipsArg::Immediate(rhs_value),
        );
        push_instr(&mut context.text_section, op, args);
    } else {
        return Result::Err(String::from_str("Invalid operands for arithmetic operation"));
    }
    proof {
        assert(context.text_section.statements@.take(c0.text_section.statements@.len() as int)
            =~= c0.text_section.statements@);
        lemma_frame_local(c0, *context);
    }
    Result::Ok(())
}

/// Lowers a comparison initializer into a set-on-comparison
/// instruction. The operation must carry the type `bool`, and the
/// logical connectives only appear under conditional jumps.
fn lower_init_cond(
    lhs: &Operand,
    condition: &Condition,
    rhs: &Operand,
    operation_type: VarType,
    register: String,
    context: &mut Context,
) -> (r: Result<(), String>)
    requires
        old(context).wf(),
    ensures
        final(context).wf(),
        r is Ok ==> frame(*old(context), *final(context)),
        match step_init_cond(
            *lhs,
            *condition,
            *rhs,
            operation_type,
            register@,
            state_of(*old(context)),
        ) {
            Result::Ok(m) => r is Ok && state_of(*final(context)) == m,
            Result::Err(e) => r matches Result::Err(msg) && msg@ == e,
        },
{
    let ghost c0 = *context;
    if !matches!(operation_type, VarType::Bool) {
        return Result::Err(String::from_str("Conditional operations must be of type bool"));
    }
    let op = match cond_set_op(condition) {
        Option::Some(op) => op,
        Option::None => {
            return Result::Err(
                String::from_str("Cannot perform logical operations on immediate values"),
            );
        },
    };
    if is_register(lhs) && is_register(rhs) {
        let lhs_name = match as_identifier(lhs) {
            Option::Some(n) => n,
            Option::None => {
                return Result::Err(
                    String::from_str("Invalid operands for conditional operation"),
                );
            },
        };
        let rhs_name = match as_identifier(rhs) {
            Option::Some(n) => n,
            Option::None => {
                return Result::Err(
                    String::from_str("Invalid operands for conditional operation"),
                );
            },
        };
        let lhs_register = match lookup_reg(&context.register_map, lhs_name.as_str()) {
            Option::Some(reg) => reg,
            Option::None => {
                return Result::Err(
                    crate::text::concat3("Register ", lhs_name.as_str(), " not found"),
                );
            },
        };
        let rhs_register = match lookup_reg(&context.register_map, rhs_name.as_str()) {
            Option::Some(reg) => reg,
            Option::None => {
                return Result::Err(
                    crate::text::concat3("Register ", rhs_name.as_str(), " not found"),
                );
            },
        };
        let args = args3(
            MipsArg::Register(register),
            MipsArg::Register(lhs_register),
            MipsArg::Register(rhs_register),
        );
        push_instr(&mut context.text_section, op, args);
    } else if is_register(lhs) && is_immediate(rhs) {
        let lhs_name = match as_identifier(lhs) {
            Option::Some(n) => n,
            Option::None => {
                return Result::Err(
                    String::from_str("Invalid operands for conditional operation"),
                );
            },
        };
        let lhs_register = match lookup_reg(&context.register_map, lhs_name.as_str()) {
            Option::Some(reg) => reg,
            Option::None => {
                return Result::Err(
                    crate::text::concat3("Register ", lhs_name.as_str(), " not found"),
                );
            },
        };
        let rhs_value = match as_immediate(rhs) {
            Result::Ok(v) => v,
            Result::Err(m) => {
                return Result::Err(m);
            },
        };
        let args = args3(
            MipsArg::Register(register),
            MipsArg::Register(lhs_register),
            MipsArg::Immediate(rhs_value),
        );
        push_instr(&mut context.text_section, op, args);
    } else {
        return Result::Err(String::from_str("Invalid operands for conditional operation"));
    }
    proof {
        assert(context.text_section.statements@.take(c0.text_section.statements@.len() as int)
            =~= c0.text_section.statements@);
        lemma_frame_local(c0, *context);
    }
    Result::Ok(())
}


/// Lowers a call initializer: the built-in reads lower to syscalls
/// whose result moves into `register`; a user-defined call loads the
/// arguments and jumps.
fn lower_init_call(fc: &FunctionCall, register: String, context: &mut Context) -> (r: Result<
    (),
    String,
>)
    requires
        old(context).wf(),
    ensures
        final(context).wf(),
        r is Ok ==> frame(*old(context), *final(context)),
        match step_init_call(*fc, register@, state_of(*old(context))) {
            Result::Ok(m) => r is Ok && state_of(*final(context)) == m,
            Result::Err(e) => r matches Result::Err(msg) && msg@ == e,
        },
{
    let ghost c0 = *context;
    proof {
        lemma_func_find(context.function_map@, "__"@ + fc.name@);
    }
    let function = match context.get_function(fc.name.as_str()) {
        Option::Some(f) => f,
        Option::None => {
            return Result::Err(
                crate::text::concat3("Function ", fc.name.as_str(), " not found"),
            );
        },
    };
    if function.is_builtin {
        if str_eq(function.name.as_str(), "read_int") {
            load_immediate(&mut context.text_section, String::from_str("$v0"), 5);
        } else if str_eq(function.name.as_str(), "read_string") {
            // $a0 = buffer address, $a1 = buffer length
            load_immediate(&mut context.text_section, String::from_str("$v0"), 8);
            if fc.params.len() != 1 {
                return Result::Err(String::from_str("Invalid argument for read_string"));
            }
            let size = match &fc.params[0] {
                Operand::LiteralU32(size) => *size,
                _ => {
                    return Result::Err(String::from_str("Invalid argument for read_string"));
                },
            };
            if context.buffer_counter == u32::MAX {
                return Result::Err(String::from_str("Too many generated buffers"));
            }
            context.buffer_counter = context.buffer_counter + 1;
            let label = prefixed_dec("__buffer_", context.buffer_counter as u64);
            let ghost vars0 = context.data_section.variables@;
            let entry = DataVariable {
                name: label.clone(),
                kind: DataKind::Space,
                value: DataValue::Bytes(size),
            };
            let ghost e = entry;
            context.data_section.variables.push(entry);
            proof {
                lemma_interned_push_space(vars0, e);
                lemma_data_model_push(vars0, e);
            }
            let la_args = args2(
                MipsArg::Register(String::from_str("$a0")),
                MipsArg::Label(label),
            );
            push_instr(&mut context.text_section, MipsOp::La, la_args);
            load_immediate(&mut context.text_section, String::from_str("$a1"), size);
        } else {
            return Result::Err(
                crate::text::concat3("Function ", fc.name.as_str(), " not found"),
            );
        }
        // perform the syscall and move its result into the register
        let no_args: Vec<MipsArg> = Vec::new();
        proof {
            assert(no_args@.map_values(|a: MipsArg| arg_model(a)) =~= Seq::<ArgModel>::empty());
        }
        push_instr(&mut context.text_section, MipsOp::Syscall, no_args);
        let move_args = args2(
            MipsArg::Register(register),
            MipsArg::Register(String::from_str("$v0")),
        );
        push_instr(&mut context.text_section, MipsOp::Move, move_args);
        proof {
            assert(context.text_section.statements@.take(
                c0.text_section.statements@.len() as int,
            ) =~= c0.text_section.statements@);
            lemma_frame_local(c0, *context);
        }
        Result::Ok(())
    } else {
        lower_argument_moves(fc, context)?;
        let jal_args = args1(MipsArg::Label(fc.name.clone()));
        push_instr(&mut context.text_section, MipsOp::Jal, jal_args);
        proof {
            assert(context.text_section.statements@.take(
                c0.text_section.statements@.len() as int,
            ) =~= c0.text_section.statements@);
            lemma_frame_local(c0, *context);
        }
        Result::Ok(())
    }
}

/// Loads each call argument into a register and moves it into the
/// argument registers `$a0`, `$a1`, ….
fn lower_argument_moves(fc: &FunctionCall, context: &mut Context) -> (r: Result<(), String>)
    requires
        old(context).wf(),
    ensures
        final(context).wf(),
        match step_args(fc.params@, 0, state_of(*old(context))) {
            Result::Ok(m) => r is Ok && state_of(*final(context)) == m,
            Result::Err(e) => r matches Result::Err(msg) && msg@ == e,
        },
        final(context).function_map@ == old(context).function_map@,
        final(context).scope_level == old(context).scope_level,
        final(context).text_section.statements@.len() >= old(
            context,
        ).text_section.statements@.len(),
        final(context).text_section.statements@.take(
            old(context).text_section.statements@.len() as int,
        ) == old(context).text_section.statements@,
        main_labels(final(context).text_section.statements@) == main_labels(
            old(context).text_section.statements@,
        ),
{
    let ghost c0 = *context;
    let mut i: usize = 0;
    while i < fc.params.len()
        invariant
            context.wf(),
            context.function_map@ == c0.function_map@,
            context.scope_level == c0.scope_level,
            context.text_section.statements@.len() >= c0.text_section.statements@.len(),
            context.text_section.statements@.take(c0.text_section.statements@.len() as int)
                == c0.text_section.statements@,
            main_labels(context.text_section.statements@) == main_labels(
                c0.text_section.statements@,
            ),
            c0 == *old(context),
            step_args(fc.params@, 0, state_of(c0)) == step_args(
                fc.params@,
                i as nat,
                state_of(*context),
            ),
        decreases fc.params@.len() - i,
    {
        let ghost before = *context;
        let param_register = match &fc.params[i] {
            Operand::Identifier(ident) => find_or_create_reg(
                &mut context.register_map,
                ident.clone(),
            ),
            Operand::LiteralStr(text) => {
                let register = new_register(&mut context.register_map);
                let result = register.clone();
                load_string(
                    &mut context.text_section,
                    &mut context.data_section,
                    register,
                    text.clone(),
                );
                result
            },
            Operand::Dereference(_) => {
                return Result::Err(
                    String::from_str("Dereference arguments are not supported"),
                );
            },
            Operand::LiteralF32(_) => {
                return Result::Err(
                    String::from_str("Floating-point code generation is not supported"),
                );
            },
            Operand::LiteralF64(_) => {
                return Result::Err(
                    String::from_str("Floating-point code generation is not supported"),
                );
            },
            other => {
                let value = match as_immediate(other) {
                    Result::Ok(v) => v,
                    Result::Err(m) => {
                        return Result::Err(m);
                    },
                };
                load_immediate_to_new_register(
                    &mut context.register_map,
                    &mut context.text_section,
                    value,
                )
            },
        };
        let ghost mid = *context;
        let arg_register = prefixed_dec("$a", i as u64);
        let move_args = args2(MipsArg::Register(arg_register), MipsArg::Register(param_register));
        push_instr(&mut context.text_section, MipsOp::Move, move_args);
        proof {
            let nowt = context.text_section.statements@;
            let bt = before.text_section.statements@;
            let ct = c0.text_section.statements@;
            assert(nowt.take(bt.len() as int) =~= bt);
            assert forall|k: int| 0 <= k < ct.len() implies nowt[k] == ct[k] by {
                assert(nowt.take(bt.len() as int)[k] == bt[k]);
                assert(bt.take(ct.len() as int)[k] == ct[k]);
            }
            assert(nowt.take(ct.len() as int) =~= ct);
            assert(state_of(*context) == emit(
                state_of(mid),
                ins2(
                    MipsOp::Move,
                    ArgModel::Register("$a"@ + dec_rep(i as nat)),
                    ArgModel::Register(param_register@),
                ),
            ));
            assert(step_args(fc.params@, i as nat, state_of(before)) == step_args(
                fc.params@,
                (i + 1) as nat,
                state_of(*context),
            ));
        }
        i = i + 1;
    }
    proof {
        assert(step_args(fc.params@, fc.params@.len() as nat, state_of(*context))
            == Result::<CgState, Seq<char>>::Ok(state_of(*context)));
    }
    Result::Ok(())
}

/// Lowers a variable declaration: binds the variable's register, then
/// lowers the initializer into it.
fn lower_var_decl(var: &Variable, context: &mut Context) -> (r: Result<(), String>)
    requires
        old(context).wf(),
    ensures
        final(context).wf(),
        r is Ok ==> frame(*old(context), *final(context)),
        match step_var_decl(*var, state_of(*old(context))) {
            Result::Ok(m) => r is Ok && state_of(*final(context)) == m,
            Result::Err(e) => r matches Result::Err(msg) && msg@ == e,
        },
        (var.value matches Expr::Operand(op) && op matches Operand::LiteralU64(_)) ==> (r
            matches Result::Err(m) && m@
            == "Cannot store a 64-bit integer in a 32-bit register"@),
        (var.value matches Expr::BinaryOperation(b) && b matches BinaryOperation::Arithmetic {
            lhs,
            rhs,
            ..
        } && !operand_is_register(lhs) && operand_is_register(rhs)) ==> (r matches Result::Err(m)
            && m@ == "Invalid operands for arithmetic operation"@),
        (var.value matches Expr::Operand(op) ==> (match operand_immediate(op) {
            Option::Some(v) => r is Ok && final(context).text_section.statements@.len() == old(
                context,
            ).text_section.statements@.len() + 1 && stmt_is_li(
                final(context).text_section.statements@.last(),
                decl_reg(old(context).register_map@, var.name@),
                v,
            ) && reg_lookup(final(context).register_map@, var.name@) == Option::Some(
                decl_reg(old(context).register_map@, var.name@),
            ),
            Option::None => true,
        })),
{
    let register = find_or_create_reg(&mut context.register_map, var.name.clone());
    proof {
        assert(register@ == decl_reg(old(context).register_map@, var.name@));
        assert(state_of(*context) == (CgState {
            regs: reg_find_or_create(state_of(*old(context)).regs, var.name@).1,
            ..state_of(*old(context))
        }));
        assert(register@ == reg_find_or_create(state_of(*old(context)).regs, var.name@).0);
    }
    match &var.value {
        Expr::Operand(op) => lower_init_operand(op, register, context),
        Expr::BinaryOperation(BinaryOperation::Arithmetic { lhs, operator, rhs, .. }) => {
            lower_init_arith(lhs, operator, rhs, register, context)
        },
        Expr::BinaryOperation(
            BinaryOperation::Conditional { lhs, condition, rhs, operation_type },
        ) => lower_init_cond(lhs, condition, rhs, *operation_type, register, context),
        Expr::FunctionCall(fc) => lower_init_call(fc, register, context),
    }
}

/// Short-circuit AND under a conditional jump: fall to a fresh
/// `__and_N` label when either side is zero, otherwise jump.
fn emit_short_circuit_and(
    lhs_arg: MipsArg,
    rhs_arg: MipsArg,
    target: &String,
    context: &mut Context,
) -> (r: Result<(), String>)
    requires
        old(context).wf(),
    ensures
        final(context).wf(),
        r is Ok ==> frame(*old(context), *final(context)),
        match step_and(arg_model(lhs_arg), arg_model(rhs_arg), target@, state_of(*old(context))) {
            Result::Ok(m) => r is Ok && state_of(*final(context)) == m,
            Result::Err(e) => r matches Result::Err(msg) && msg@ == e,
        },
{
    let ghost c0 = *context;
    if context.conditional_counter == u32::MAX {
        return Result::Err(String::from_str("Too many generated branch labels"));
    }
    context.conditional_counter = context.conditional_counter + 1;
    let and_label = prefixed_dec("__and_", context.conditional_counter as u64);
    proof {
        reveal_strlit("__and_");
        assert(and_label@[0] == "__and_"@[0]);
        lemma_underscore_not_main(and_label@);
    }
    let beqz_lhs = args2(lhs_arg, MipsArg::Label(and_label.clone()));
    push_instr(&mut context.text_section, MipsOp::Beqz, beqz_lhs);
    let beqz_rhs = args2(rhs_arg, MipsArg::Label(and_label.clone()));
    push_instr(&mut context.text_section, MipsOp::Beqz, beqz_rhs);
    let jump = args1(MipsArg::Label(target.clone()));
    push_instr(&mut context.text_section, MipsOp::J, jump);
    push_label(&mut context.text_section, and_label);
    proof {
        assert(context.text_section.statements@.take(c0.text_section.statements@.len() as int)
            =~= c0.text_section.statements@);
        lemma_frame_local(c0, *context);
    }
    Result::Ok(())
}

/// Short-circuit OR under a conditional jump: jump as soon as either
/// side is non-zero.
fn emit_short_circuit_or(
    lhs_arg: MipsArg,
    rhs_arg: MipsArg,
    target: &String,
    context: &mut Context,
) -> (r: Result<(), String>)
    requires
        old(context).wf(),
    ensures
        final(context).wf(),
        r is Ok ==> frame(*old(context), *final(context)),
        match step_or(arg_model(lhs_arg), arg_model(rhs_arg), target@, state_of(*old(context))) {
            Result::Ok(m) => r is Ok && state_of(*final(context)) == m,
            Result::Err(e) => r matches Result::Err(msg) && msg@ == e,
        },
{
    let ghost c0 = *context;
    let bnez_lhs = args2(lhs_arg, MipsArg::Label(target.clone()));
    push_instr(&mut context.text_section, MipsOp::Bnez, bnez_lhs);
    let bnez_rhs = args2(rhs_arg, MipsArg::Label(target.clone()));
    push_instr(&mut context.text_section, MipsOp::Bnez, bnez_rhs);
    proof {
        assert(context.text_section.statements@.take(c0.text_section.statements@.len() as int)
            =~= c0.text_section.statements@);
        lemma_frame_local(c0, *context);
    }
    Result::Ok(())
}

/// Lowers `if <condition> goto <label>`: identifiers branch on zero, a
/// true literal jumps unconditionally, a false literal emits nothing,
/// comparisons branch directly and the logical connectives
/// short-circuit.
fn lower_cond_jump(condition: &Expr, label: &String, context: &mut Context) -> (r: Result<
    (),
    String,
>)
    requires
        old(context).wf(),
    ensures
        final(context).wf(),
        r is Ok ==> frame(*old(context), *final(context)),
        match step_cond_jump(*condition, label@, state_of(*old(context))) {
            Result::Ok(m) => r is Ok && state_of(*final(context)) == m,
            Result::Err(e) => r matches Result::Err(msg) && msg@ == e,
        },
        match condition {
            Expr::Operand(op) => match op {
                Operand::Identifier(name) => match reg_lookup(
                    old(context).register_map@,
                    name@,
                ) {
                    Option::Some(rg) => r is Ok
                        && final(context).text_section.statements@.len() == old(
                        context,
                    ).text_section.statements@.len() + 1 && stmt_is_beqz(
                        final(context).text_section.statements@.last(),
                        rg,
                        label@,
                    ),
                    Option::None => r is Err,
                },
                Operand::LiteralBool(v) => r is Ok && if *v {
                    final(context).text_section.statements@.len() == old(
                        context,
                    ).text_section.statements@.len() + 1 && stmt_is_jump(
                        final(context).text_section.statements@.last(),
                        label@,
                    )
                } else {
                    final(context).text_section.statements@ == old(
                        context,
                    ).text_section.statements@
                },
                _ => r is Err,
            },
            Expr::FunctionCall(_) => r is Err,
            _ => true,
        },
{
    let ghost c0 = *context;
    match condition {
        Expr::BinaryOperation(BinaryOperation::Conditional {
            lhs,
            condition,
            rhs,
            operation_type,
        }) => {
            if !matches!(operation_type, VarType::Bool) {
                return Result::Err(
                    String::from_str("Conditional operations must be of type bool"),
                );
            }
            if is_register(lhs) && is_register(rhs) {
                let lhs_name = match as_identifier(lhs) {
                    Option::Some(n) => n,
                    Option::None => {
                        return Result::Err(
                            String::from_str("Invalid operands for conditional jump"),
                        );
                    },
                };
                let rhs_name = match as_identifier(rhs) {
                    Option::Some(n) => n,
                    Option::None => {
                        return Result::Err(
                            String::from_str("Invalid operands for conditional jump"),
                        );
                    },
                };
                let lhs_register = match lookup_reg(&context.register_map, lhs_name.as_str()) {
                    Option::Some(reg) => reg,
                    Option::None => {
                        return Result::Err(
                            crate::text::concat3("Register ", lhs_name.as_str(), " not found"),
                        );
                    },
                };
                let rhs_register = match lookup_reg(&context.register_map, rhs_name.as_str()) {
                    Option::Some(reg) => reg,
                    Option::None => {
                        return Result::Err(
                            crate::text::concat3("Register ", rhs_name.as_str(), " not found"),
                        );
                    },
                };
                match condition {
                    Condition::And => {
                        return emit_short_circuit_and(
                            MipsArg::Register(lhs_register),
                            MipsArg::Register(rhs_register),
                            label,
                            context,
                        );
                    },
                    Condition::Or => {
                        return emit_short_circuit_or(
                            MipsArg::Register(lhs_register),
                            MipsArg::Register(rhs_register),
                            label,
                            context,
                        );
                    },
                    _ => (),
                }
                let op = match cond_branch_op(condition) {
                    Option::Some(op) => op,
                    Option::None => {
                        return Result::Err(
                            String::from_str("Invalid binary operation for conditional jump"),
                        );
                    },
                };
                let args = args3(
                    MipsArg::Register(lhs_register),
                    MipsArg::Register(rhs_register),
                    MipsArg::Label(label.clone()),
                );
                push_instr(&mut context.text_section, op, args);
            } else if is_register(lhs) && is_immediate(rhs) {
                let lhs_name = match as_identifier(lhs) {
                    Option::Some(n) => n,
                    Option::None => {
                        return Result::Err(
                            String::from_str("Invalid operands for conditional jump"),
                        );
                    },
                };
                let lhs_register = match lookup_reg(&context.register_map, lhs_name.as_str()) {
                    Option::Some(reg) => reg,
                    Option::None => {
                        return Result::Err(
                            crate::text::concat3("Register ", lhs_name.as_str(), " not found"),
                        );
                    },
                };
                let rhs_value = match as_immediate(rhs) {
                    Result::Ok(v) => v,
                    Result::Err(m) => {
                        return Result::Err(m);
                    },
                };
                match condition {
                    Condition::And => {
                        return emit_short_circuit_and(
                            MipsArg::Register(lhs_register),
                            MipsArg::Immediate(rhs_value),
                            label,
                            context,
                        );
                    },
                    Condition::Or => {
                        return emit_short_circuit_or(
                            MipsArg::Register(lhs_register),
                            MipsArg::Immediate(rhs_value),
                            label,
                            context,
                        );
                    },
                    _ => (),
                }
                let op = match cond_branch_op(condition) {
                    Option::Some(op) => op,
                    Option::None => {
                        return Result::Err(
                            String::from_str("Invalid binary operation for conditional jump"),
                        );
                    },
                };
                let args = args3(
                    MipsArg::Register(lhs_register),
                    MipsArg::Immediate(rhs_value),
                    MipsArg::Label(label.clone()),
                );
                push_instr(&mut context.text_section, op, args);
            } else {
                return Result::Err(String::from_str("Invalid operands for conditional jump"));
            }
        },
        Expr::BinaryOperation(BinaryOperation::Arithmetic { .. }) => {
            return Result::Err(
                String::from_str("Invalid binary operation for conditional jump"),
            );
        },
        Expr::Operand(op) => {
            match op {
                Operand::Identifier(ident) => {
                    let register = match lookup_reg(&context.register_map, ident.as_str()) {
                        Option::Some(reg) => reg,
                        Option::None => {
                            return Result::Err(
                                crate::text::concat3("Register ", ident.as_str(), " not found"),
                            );
                        },
                    };
                    let args = args2(MipsArg::Register(register), MipsArg::Label(label.clone()));
                    push_instr(&mut context.text_section, MipsOp::Beqz, args);
                },
                Operand::LiteralBool(value) => {
                    if *value {
                        let args = args1(MipsArg::Label(label.clone()));
                        push_instr(&mut context.text_section, MipsOp::J, args);
                    }
                },
                _ => {
                    return Result::Err(
                        String::from_str("Invalid operand for conditional jump"),
                    );
                },
            }
        },
        Expr::FunctionCall(_) => {
            return Result::Err(String::from_str("Invalid expression for conditional jump"));
        },
    }
    proof {
        assert(context.text_section.statements@.take(c0.text_section.statements@.len() as int)
            =~= c0.text_section.statements@);
        lemma_frame_local(c0, *context);
    }
    Result::Ok(())
}

/// Lowers `store`: the destination must be a dereference and the source
/// an identifier, both already bound to registers; any other shape is
/// rejected, and the word is stored from the source's register through
/// the destination's.
fn lower_store(at: &Operand, from: &Operand, context: &mut Context) -> (r: Result<(), String>)
    requires
        old(context).wf(),
    ensures
        final(context).wf(),
        r is Ok ==> frame(*old(context), *final(context)),
        match (at, from) {
            (Operand::Dereference(a), Operand::Identifier(b)) => match (
                reg_lookup(old(context).register_map@, a@),
                reg_lookup(old(context).register_map@, b@),
            ) {
                (Option::Some(at_reg), Option::Some(from_reg)) => r is Ok
                    && final(context).text_section.statements@.len() == old(
                    context,
                ).text_section.statements@.len() + 1 && stmt_is_sw(
                    final(context).text_section.statements@.last(),
                    from_reg,
                    at_reg,
                ),
                _ => r is Err,
            },
            _ => r is Err,
        },
        match step_store(*at, *from, state_of(*old(context))) {
            Result::Ok(m) => r is Ok && state_of(*final(context)) == m,
            Result::Err(e) => r matches Result::Err(msg) && msg@ == e,
        },
{
    let ghost c0 = *context;
    let (at_name, from_name) = match (at, from) {
        (Operand::Dereference(a), Operand::Identifier(b)) => (a, b),
        _ => {
            return Result::Err(String::from_str("Invalid operands for store operation"));
        },
    };
    let at_register = match lookup_reg(&context.register_map, at_name.as_str()) {
        Option::Some(reg) => reg,
        Option::None => {
            return Result::Err(
                crate::text::concat3("Register ", at_name.as_str(), " not found"),
            );
        },
    };
    let from_register = match lookup_reg(&context.register_map, from_name.as_str()) {
        Option::Some(reg) => reg,
        Option::None => {
            return Result::Err(
                crate::text::concat3("Register ", from_name.as_str(), " not found"),
            );
        },
    };
    let args = args2(MipsArg::Register(from_register), MipsArg::Register(at_register));
    push_instr(&mut context.text_section, MipsOp::Sw, args);
    proof {
        assert(context.text_section.statements@.take(c0.text_section.statements@.len() as int)
            =~= c0.text_section.statements@);
        lemma_frame_local(c0, *context);
    }
    Result::Ok(())
}

/// Lowers a call statement: the built-in writes lower to syscalls, a
/// user-defined call loads the arguments and jumps.
fn lower_call_stmt(fc: &FunctionCall, context: &mut Context) -> (r: Result<(), String>)
    requires
        old(context).wf(),
    ensures
        final(context).wf(),
        r is Ok ==> frame(*old(context), *final(context)),
        match step_call_stmt(*fc, state_of(*old(context))) {
            Result::Ok(m) => r is Ok && state_of(*final(context)) == m,
            Result::Err(e) => r matches Result::Err(msg) && msg@ == e,
        },
{
    let ghost c0 = *context;
    proof {
        lemma_func_find(context.function_map@, "__"@ + fc.name@);
    }
    let function = match context.get_function(fc.name.as_str()) {
        Option::Some(f) => f,
        Option::None => {
            return Result::Err(
                crate::text::concat3("Function ", fc.name.as_str(), " not found"),
            );
        },
    };
    if function.is_builtin {
        if str_eq(function.name.as_str(), "write_string") {
            // print-string syscall: $v0 = 4, $a0 = string address
            load_immediate(&mut context.text_section, String::from_str("$v0"), 4);
            if fc.params.len() != 1 {
                return Result::Err(String::from_str("Invalid argument for write_string"));
            }
            let string_register = match &fc.params[0] {
                Operand::Identifier(ident) => {
                    match lookup_reg(&context.register_map, ident.as_str()) {
                        Option::Some(reg) => reg,
                        Option::None => {
                            return Result::Err(
                                crate::text::concat3("Register ", ident.as_str(), " not found"),
                            );
                        },
                    }
                },
                Operand::LiteralStr(text) => {
                    let register = new_register(&mut context.register_map);
                    let result = register.clone();
                    load_string(
                        &mut context.text_section,
                        &mut context.data_section,
                        register,
                        text.clone(),
                    );
                    result
                },
                _ => {
                    return Result::Err(String::from_str("Invalid argument for write_string"));
                },
            };
            let move_args = args2(
                MipsArg::Register(String::from_str("$a0")),
                MipsArg::Register(string_register),
            );
            push_instr(&mut context.text_section, MipsOp::Move, move_args);
            let no_args: Vec<MipsArg> = Vec::new();
            proof {
                assert(no_args@.map_values(|a: MipsArg| arg_model(a)) =~= Seq::<
                    ArgModel,
                >::empty());
            }
            push_instr(&mut context.text_section, MipsOp::Syscall, no_args);
        } else if str_eq(function.name.as_str(), "write_int") {
            // print-integer syscall: $v0 = 1, $a0 = value
            load_immediate(&mut context.text_section, String::from_str("$v0"), 1);
            if fc.params.len() != 1 {
                return Result::Err(String::from_str("Invalid argument for write_int"));
            }
            let int_register = match &fc.params[0] {
                Operand::Identifier(ident) => {
                    match lookup_reg(&context.register_map, ident.as_str()) {
                        Option::Some(reg) => reg,
                        Option::None => {
                            return Result::Err(
                                crate::text::concat3("Register ", ident.as_str(), " not found"),
                            );
                        },
                    }
                },
                other => {
                    let value = match as_immediate(other) {
                        Result::Ok(v) => v,
                        Result::Err(m) => {
                            return Result::Err(m);
                        },
                    };
                    load_immediate_to_new_register(
                        &mut context.register_map,
                        &mut context.text_section,
                        value,
                    )
                },
            };
            let move_args = args2(
                MipsArg::Register(String::from_str("$a0")),
                MipsArg::Register(int_register),
            );
            push_instr(&mut context.text_section, MipsOp::Move, move_args);
            let no_args: Vec<MipsArg> = Vec::new();
            proof {
                assert(no_args@.map_values(|a: MipsArg| arg_model(a)) =~= Seq::<
                    ArgModel,
                >::empty());
            }
            push_instr(&mut context.text_section, MipsOp::Syscall, no_args);
        } else {
            return Result::Err(
                crate::text::concat3(
                    "Function ",
                    fc.name.as_str(),
                    " is not supported as a statement",
                ),
            );
        }
        proof {
            assert(context.text_section.statements@.take(
                c0.text_section.statements@.len() as int,
            ) =~= c0.text_section.statements@);
            lemma_frame_local(c0, *context);
        }
        Result::Ok(())
    } else {
        lower_argument_moves(fc, context)?;
        let jal_args = args1(MipsArg::Label(fc.name.clone()));
        push_instr(&mut context.text_section, MipsOp::Jal, jal_args);
        proof {
            assert(context.text_section.statements@.take(
                c0.text_section.statements@.len() as int,
            ) =~= c0.text_section.statements@);
            lemma_frame_local(c0, *context);
        }
        Result::Ok(())
    }
}

/// Lowers one statement.
///
/// Three rejections carry exact messages: a `u64` initializer cannot
/// live in a 32-bit register, `(immediate, register)` arithmetic is
/// invalid, and `main` is reserved for the entrypoint — a user label of
/// that name fails, and only of that name.
fn gen_stmt(s: &Statement, context: &mut Context) -> (r: Result<(), String>)
    requires
        old(context).wf(),
    ensures
        final(context).wf(),
        r is Ok ==> frame(*old(context), *final(context)),
        match step_stmt(*s, state_of(*old(context))) {
            Result::Ok(m) => r is Ok && state_of(*final(context)) == m,
            Result::Err(e) => r matches Result::Err(msg) && msg@ == e,
        },
        (s matches Statement::Label { name, .. } ==> ((name@ == "main"@) <==> r is Err)),
        (s matches Statement::Label { name, .. } ==> (match r {
            Result::Err(m) => m@ == "Cannot use 'main' as a label name"@,
            Result::Ok(_) => true,
        })),
        (s matches Statement::VariableDeclaration(v) && v.value matches Expr::Operand(op) && op
            matches Operand::LiteralU64(_)) ==> (r matches Result::Err(m) && m@
            == "Cannot store a 64-bit integer in a 32-bit register"@),
        (s matches Statement::VariableDeclaration(v) && v.value matches Expr::BinaryOperation(b)
            && b matches BinaryOperation::Arithmetic { lhs, rhs, .. } && !operand_is_register(lhs)
            && operand_is_register(rhs)) ==> (r matches Result::Err(m) && m@
            == "Invalid operands for arithmetic operation"@),
        (s matches Statement::VariableDeclaration(v) ==> (v.value matches Expr::Operand(op)
            ==> (match operand_immediate(op) {
            Option::Some(imm_v) => r is Ok && final(context).text_section.statements@.len()
                == old(context).text_section.statements@.len() + 1 && stmt_is_li(
                final(context).text_section.statements@.last(),
                decl_reg(old(context).register_map@, v.name@),
                imm_v,
            ) && reg_lookup(final(context).register_map@, v.name@) == Option::Some(
                decl_reg(old(context).register_map@, v.name@),
            ),
            Option::None => true,
        }))),
        (s matches Statement::UnconditionalJump { label, .. } ==> r is Ok
            && final(context).text_section.statements@.len() == old(
            context,
        ).text_section.statements@.len() + 1 && stmt_is_jump(
            final(context).text_section.statements@.last(),
            label@,
        )),
        (s matches Statement::Label { name, .. } ==> (name@ != "main"@ ==> (r is Ok
            && final(context).text_section.statements@.len() == old(
            context,
        ).text_section.statements@.len() + 1 && is_named_label(
            final(context).text_section.statements@.last(),
            name@,
        )))),
        (s is NoOperation ==> r is Ok && final(context).text_section.statements@ == old(
            context,
        ).text_section.statements@),
        (s matches Statement::Store { at, from, .. } ==> (match (at, from) {
            (Operand::Dereference(a), Operand::Identifier(b)) => match (
                reg_lookup(old(context).register_map@, a@),
                reg_lookup(old(context).register_map@, b@),
            ) {
                (Option::Some(at_reg), Option::Some(from_reg)) => r is Ok
                    && final(context).text_section.statements@.len() == old(
                    context,
                ).text_section.statements@.len() + 1 && stmt_is_sw(
                    final(context).text_section.statements@.last(),
                    from_reg,
                    at_reg,
                ),
                _ => r is Err,
            },
            _ => r is Err,
        })),
    decreases *s, 0nat,
{
    let ghost c0 = *context;
    match s {
        Statement::VariableDeclaration(var) => lower_var_decl(var, context),
        Statement::ConditionalJump { condition, label, .. } => lower_cond_jump(
            condition,
            label,
            context,
        ),
        Statement::UnconditionalJump { label, .. } => {
            let args = args1(MipsArg::Label(label.clone()));
            push_instr(&mut context.text_section, MipsOp::J, args);
            proof {
                assert(context.text_section.statements@.take(
                    c0.text_section.statements@.len() as int,
                ) =~= c0.text_section.statements@);
                lemma_frame_local(c0, *context);
            }
            Result::Ok(())
        },
        Statement::Label { name, .. } => {
            if string_eq_str(name, "main") {
                return Result::Err(String::from_str("Cannot use 'main' as a label name"));
            }
            push_label(&mut context.text_section, name.clone());
            proof {
                assert(context.text_section.statements@.take(
                    c0.text_section.statements@.len() as int,
                ) =~= c0.text_section.statements@);
                lemma_frame_local(c0, *context);
            }
            Result::Ok(())
        },
        Statement::FunctionDefinition(function) => {
            let mangled = crate::text::concat2("__", function.name.as_str());
            proof {
                reveal_strlit("__");
                assert(mangled@[0] == "__"@[0]);
                lemma_underscore_not_main(mangled@);
            }
            let entry = (mangled.clone(), crate::ast::context::signature_of(function));
            let ghost ge = entry;
            context.function_map.push(entry);
            proof {
                lemma_funcs_model_push(c0.function_map@, ge);
            }
            // function code goes in front of whatever has been emitted:
            // generate the body into a fresh text section, then put the
            // saved statements back behind it
            let mut saved: Vec<MipsStatement> = Vec::new();
            core::mem::swap(&mut saved, &mut context.text_section.statements);
            push_label(&mut context.text_section, mangled.clone());
            let ghost c1 = *context;
            proof {
                assert(c1.text_section.statements@ =~= Seq::<MipsStatement>::empty().push(
                    MipsStatement::Label(mangled),
                ));
                assert(main_labels(c1.text_section.statements@) == 0);
                assert(c1.text_section.statements@.take(0) =~= Seq::<MipsStatement>::empty());
                assert(before_first_main(c1.text_section.statements@, mangled@));
                assert(text_model(c1.text_section.statements@) =~= seq![
                    TextModel::Label(mangled@),
                ]);
                assert(state_of(c1) == (CgState {
                    funcs: state_of(c0).funcs.push(
                        FuncModel {
                            key: "__"@ + function.name@,
                            name: function.name@,
                            is_builtin: function.is_builtin,
                        },
                    ),
                    text: seq![TextModel::Label("__"@ + function.name@)],
                    ..state_of(c0)
                }));
            }
            proof {
                assert(decreases_to!(*s => function.body));
            }
            match gen_stmts(&function.body, context) {
                Result::Ok(_) => (),
                Result::Err(e) => {
                    return Result::Err(e);
                },
            }
            let ghost c2 = *context;
            let jr_args = args1(MipsArg::Register(String::from_str("$ra")));
            push_instr(&mut context.text_section, MipsOp::Jr, jr_args);
            let ghost c3 = *context;
            context.text_section.statements.append(&mut saved);
            proof {
                let front = c3.text_section.statements@;
                let back = c0.text_section.statements@;
                let whole = context.text_section.statements@;
                assert(whole == front + back);
                lemma_text_model_concat(front, back);
                crate::mips::lemma_main_labels_concat(front, back);
                assert(front.take(c2.text_section.statements@.len() as int)
                    =~= c2.text_section.statements@);
                assert(main_labels(front) == 0);
                assert(main_labels(whole) == main_labels(back));
                // labels that already preceded the first main still do
                assert forall|nm: Seq<char>| before_first_main(back, nm) implies #[trigger]
                    before_first_main(whole, nm) by {
                    crate::mips::lemma_bfm_prepend(front, back, nm);
                }
                // the new function labels all sit in the main-free front
                assert forall|k: int|
                    c0.function_map@.len() <= k < context.function_map@.len() implies
                    before_first_main(whole, (#[trigger] context.function_map@[k]).0@) by {
                    if k == c0.function_map@.len() {
                        assert(context.function_map@[k].0@ == mangled@);
                        assert(before_first_main(c2.text_section.statements@, mangled@));
                        lemma_bfm_grow(
                            c2.text_section.statements@,
                            front,
                            mangled@,
                        );
                        crate::mips::lemma_bfm_append(front, back, mangled@);
                    } else {
                        assert(context.function_map@[k] == c2.function_map@[k]);
                        assert(before_first_main(
                            c2.text_section.statements@,
                            c2.function_map@[k].0@,
                        ));
                        lemma_bfm_grow(
                            c2.text_section.statements@,
                            front,
                            c2.function_map@[k].0@,
                        );
                        crate::mips::lemma_bfm_append(front, back, c2.function_map@[k].0@);
                    }
                }
                assert(frame(c0, *context));
                assert(state_of(*context) == (CgState {
                    text: state_of(c2).text.push(ins1(MipsOp::Jr, ArgModel::Register("$ra"@)))
                        + state_of(c0).text,
                    ..state_of(c2)
                }));
            }
            Result::Ok(())
        },
        Statement::Store { at, from, .. } => lower_store(at, from, context),
        Statement::Call(fc) => lower_call_stmt(fc, context),
        Statement::NoOperation => {
            proof {
                assert(context.text_section.statements@.take(
                    c0.text_section.statements@.len() as int,
                ) =~= c0.text_section.statements@);
                lemma_frame_local(c0, *context);
            }
            Result::Ok(())
        },
    }
}

/// Lowers a statement list in order.
fn gen_stmts(statements: &Vec<Statement>, context: &mut Context) -> (r: Result<(), String>)
    requires
        old(context).wf(),
    ensures
        final(context).wf(),
        r is Ok ==> frame(*old(context), *final(context)),
        match step_stmts(statements@, state_of(*old(context))) {
            Result::Ok(m) => r is Ok && state_of(*final(context)) == m,
            Result::Err(e) => r matches Result::Err(msg) && msg@ == e,
        },
    decreases statements@, 1nat,
{
    let ghost c0 = *context;
    proof {
        assert(statements@.skip(0) =~= statements@);
    }
    let mut i: usize = 0;
    while i < statements.len()
        invariant
            context.wf(),
            i <= statements@.len(),
            c0 == *old(context),
            frame(c0, *context),
            step_stmts(statements@, state_of(c0)) == step_stmts(
                statements@.skip(i as int),
                state_of(*context),
            ),
        decreases statements@.len() - i,
    {
        let ghost before = *context;
        proof {
            assert(decreases_to!(statements@ => statements@[i as int]));
            let tail = statements@.skip(i as int);
            assert(tail[0] == statements@[i as int]);
            assert(tail.drop_first() =~= statements@.skip(i + 1 as int));
        }
        match gen_stmt(&statements[i], context) {
            Result::Ok(_) => (),
            Result::Err(e) => {
                return Result::Err(e);
            },
        }
        proof {
            lemma_frame_trans(c0, before, *context);
        }
        i = i + 1;
    }
    proof {
        assert(statements@.skip(statements@.len() as int) =~= Seq::<Statement>::empty());
    }
    Result::Ok(())
}

/// The MIPS code generator.
pub struct MipsCodegen;

impl crate::codegen::Codegen for MipsCodegen {
    fn generate(&self, ast: Vec<Statement>, context: &mut Context) -> (r: Result<
        crate::mips::MipsProgram,
        String,
    >) {
        let ghost c0 = *context;
        if context.scope_level == 0 {
            push_label(&mut context.text_section, String::from_str("main"));
        }
        let ghost c1 = *context;
        proof {
            if c0.scope_level == 0 {
                assert(c1.text_section.statements@.take(
                    c0.text_section.statements@.len() as int,
                ) =~= c0.text_section.statements@);
                assert(state_of(c1) == emit(state_of(c0), TextModel::Label("main"@)));
            } else {
                assert(state_of(c1) == state_of(c0));
            }
        }
        match gen_stmts(&ast, context) {
            Result::Ok(_) => (),
            Result::Err(e) => {
                return Result::Err(e);
            },
        }
        let ghost c2 = *context;
        let mut data_vars: Vec<crate::mips::DataVariable> = Vec::new();
        let mut text_stmts: Vec<MipsStatement> = Vec::new();
        core::mem::swap(&mut data_vars, &mut context.data_section.variables);
        core::mem::swap(&mut text_stmts, &mut context.text_section.statements);
        let prog = crate::mips::MipsProgram {
            data_section: DataSection { variables: data_vars },
            text_section: TextSection { statements: text_stmts },
        };
        proof {
            assert forall|w: Seq<char>| #[trigger]
                asciiz_count(context.data_section.variables@, w) <= 1 by {}
            assert forall|nm: Seq<char>|
                before_first_main(c0.text_section.statements@, nm) implies #[trigger]
                before_first_main(c1.text_section.statements@, nm) by {
                if c0.scope_level == 0 {
                    lemma_bfm_grow(
                        c0.text_section.statements@,
                        c1.text_section.statements@,
                        nm,
                    );
                }
            }
            assert(text_model(prog.text_section.statements@) == state_of(c2).text);
            assert(data_model(prog.data_section.variables@) == state_of(c2).data);
            assert(regs_model(context.register_map@) == state_of(c2).regs);
            assert(funcs_model(context.function_map@) == state_of(c2).funcs);
        }
        Result::Ok(prog)
    }
}
} // verus!
