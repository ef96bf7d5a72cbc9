//! The MIPS program value the code generator emits: a data section of
//! string and buffer declarations and a text section of labels and
//! instructions. Serializing this value to assembly text is left to the
//! embedding program.

use vstd::prelude::*;

verus! {

/// The storage class of a data-section entry.
#[derive(Clone, Copy, Debug, PartialEq, Eq, Structural)]
pub enum DataKind {
    Asciiz,
    Space,
}

/// The payload of a data-section entry: string text (with its quotes,
/// as lexed) or a byte count.
#[derive(Clone, Debug, PartialEq)]
pub enum DataValue {
    Str(String),
    Bytes(u32),
}

/// One data-section declaration, e.g. `str_0: .asciiz "hi"`.
#[derive(Clone, Debug, PartialEq)]
pub struct DataVariable {
    pub name: String,
    pub kind: DataKind,
    pub value: DataValue,
}

/// The `.data` section.
#[derive(Clone, Debug, PartialEq)]
pub struct DataSection {
    pub variables: Vec<DataVariable>,
}

/// A register or immediate or label argument of an instruction.
#[derive(Clone, Debug, PartialEq)]
pub enum MipsArg {
    Register(String),
    Immediate(u32),
    Label(String),
}

/// The instruction mnemonics the generator emits. The set-on-comparison
/// family is spelled `SetEq`, `SetNe`, … here; they serialize to `seq`,
/// `sne`, and so on.
#[derive(Clone, Copy, Debug, PartialEq, Eq, Structural)]
pub enum MipsOp {
    Li,
    La,
    Move,
    Add,
    Sub,
    Mul,
    Div,
    SetLt,
    SetGt,
    SetLe,
    SetGe,
    SetEq,
    SetNe,
    Beq,
    Bne,
    Blt,
    Bgt,
    Ble,
    Bge,
    Beqz,
    Bnez,
    J,
    Jal,
    Jr,
    Sw,
    Syscall,
}

/// One line of the `.text` section.
#[derive(Clone, Debug, PartialEq)]
pub enum MipsStatement {
    Label(String),
    Instruction(MipsOp, Vec<MipsArg>),
}

/// The `.text` section.
#[derive(Clone, Debug, PartialEq)]
pub struct TextSection {
    pub statements: Vec<MipsStatement>,
}

/// A whole MIPS program value.
#[derive(Clone, Debug, PartialEq)]
pub struct MipsProgram {
    pub data_section: DataSection,
    pub text_section: TextSection,
}

// ---------------------------------------------------------------------
// Label bookkeeping
// ---------------------------------------------------------------------

/// Whether a statement is the label `name:`.
pub open spec fn is_named_label(s: MipsStatement, name: Seq<char>) -> bool {
    match s {
        MipsStatement::Label(l) => l@ == name,
        MipsStatement::Instruction(_, _) => false,
    }
}

/// How many `main:` labels a statement sequence holds.
pub open spec fn main_labels(ss: Seq<MipsStatement>) -> nat
    decreases ss.len(),
{
    if ss.len() == 0 {
        0
    } else {
        main_labels(ss.drop_last()) + if is_named_label(ss.last(), "main"@) {
            1nat
        } else {
            0nat
        }
    }
}

/// `main_labels` distributes over concatenation.
pub proof fn lemma_main_labels_concat(a: Seq<MipsStatement>, b: Seq<MipsStatement>)
    ensures
        main_labels(a + b) == main_labels(a) + main_labels(b),
    decreases b.len(),
{
    if b.len() == 0 {
        assert(a + b =~= a);
    } else {
        lemma_main_labels_concat(a, b.drop_last());
        assert((a + b).drop_last() =~= a + b.drop_last());
        assert((a + b).last() == b.last());
    }
}

/// Some occurrence of the label `name:` precedes the first `main:`.
pub open spec fn before_first_main(ss: Seq<MipsStatement>, name: Seq<char>) -> bool {
    exists|j: int|
        0 <= j < ss.len() && is_named_label(#[trigger] ss[j], name) && main_labels(ss.take(j))
            == 0
}

/// Appending statements does not unseat a label that already precedes
/// the first `main:`.
pub proof fn lemma_bfm_append(ss: Seq<MipsStatement>, tail: Seq<MipsStatement>, name: Seq<char>)
    requires
        before_first_main(ss, name),
    ensures
        before_first_main(ss + tail, name),
{
    let j = choose|j: int|
        0 <= j < ss.len() && is_named_label(#[trigger] ss[j], name) && main_labels(ss.take(j))
            == 0;
    assert((ss + tail)[j] == ss[j]);
    assert((ss + tail).take(j) =~= ss.take(j));
}

/// Prepending `main:`-free statements does not unseat such a label
/// either.
pub proof fn lemma_bfm_prepend(front: Seq<MipsStatement>, ss: Seq<MipsStatement>, name: Seq<char>)
    requires
        main_labels(front) == 0,
        before_first_main(ss, name),
    ensures
        before_first_main(front + ss, name),
{
    let j = choose|j: int|
        0 <= j < ss.len() && is_named_label(#[trigger] ss[j], name) && main_labels(ss.take(j))
            == 0;
    let j2 = front.len() + j;
    assert((front + ss)[j2] == ss[j]);
    assert((front + ss).take(j2) =~= front + ss.take(j));
    lemma_main_labels_concat(front, ss.take(j));
}

// ---------------------------------------------------------------------
// String interning
// ---------------------------------------------------------------------

/// Whether an entry is an `.asciiz` holding exactly this text.
pub open spec fn is_asciiz_of(v: DataVariable, value: Seq<char>) -> bool {
    v.kind == DataKind::Asciiz && (v.value matches DataValue::Str(s) && s@ == value)
}

/// The first `.asciiz` entry holding exactly this text, if any.
pub open spec fn intern_index(vars: Seq<DataVariable>, value: Seq<char>) -> Option<int>
    decreases vars.len(),
{
    if vars.len() == 0 {
        Option::None
    } else if is_asciiz_of(vars[0], value) {
        Option::Some(0)
    } else {
        match intern_index(vars.drop_first(), value) {
            Option::Some(i) => Option::Some(i + 1),
            Option::None => Option::None,
        }
    }
}

/// The label a string literal resolves to: the index of the entry it
/// shares, or the index where a fresh entry is appended.
pub open spec fn intern_label_index(vars: Seq<DataVariable>, value: Seq<char>) -> int {
    match intern_index(vars, value) {
        Option::Some(i) => i,
        Option::None => vars.len() as int,
    }
}

/// How many `.asciiz` entries hold exactly this text.
pub open spec fn asciiz_count(vars: Seq<DataVariable>, value: Seq<char>) -> nat
    decreases vars.len(),
{
    if vars.len() == 0 {
        0
    } else {
        asciiz_count(vars.drop_first(), value) + if is_asciiz_of(vars[0], value) {
            1nat
        } else {
            0nat
        }
    }
}

/// `intern_index` finds an entry exactly when one exists.
pub proof fn lemma_intern_index_count(vars: Seq<DataVariable>, value: Seq<char>)
    ensures
        intern_index(vars, value) is Some <==> asciiz_count(vars, value) > 0,
        match intern_index(vars, value) {
            Option::Some(i) => 0 <= i < vars.len() && is_asciiz_of(vars[i], value),
            Option::None => true,
        },
    decreases vars.len(),
{
    if vars.len() > 0 {
        lemma_intern_index_count(vars.drop_first(), value);
    }
}

/// Appending an entry with a different text leaves lookup and count of
/// this text unchanged; appending this very text as `.asciiz` raises
/// its count by one.
pub proof fn lemma_intern_push(vars: Seq<DataVariable>, value: Seq<char>, v: DataVariable)
    ensures
        asciiz_count(vars.push(v), value) == asciiz_count(vars, value) + if is_asciiz_of(
            v,
            value,
        ) {
            1nat
        } else {
            0nat
        },
        intern_index(vars, value) is Some ==> intern_index(vars.push(v), value) == intern_index(
            vars,
            value,
        ),
        (intern_index(vars, value) is None && is_asciiz_of(v, value)) ==> intern_index(
            vars.push(v),
            value,
        ) == Option::Some(vars.len() as int),
        (intern_index(vars, value) is None && !is_asciiz_of(v, value)) ==> intern_index(
            vars.push(v),
            value,
        ) is None,
    decreases vars.len(),
{
    if vars.len() == 0 {
        assert(vars.push(v)[0] == v);
        assert(vars.push(v).drop_first() =~= Seq::<DataVariable>::empty());
        assert(asciiz_count(vars.push(v), value) == asciiz_count(
            vars.push(v).drop_first(),
            value,
        ) + if is_asciiz_of(vars.push(v)[0], value) {
            1nat
        } else {
            0nat
        });
        if !is_asciiz_of(v, value) {
            assert(intern_index(vars.push(v).drop_first(), value) is None);
            assert(intern_index(vars.push(v), value) is None);
        }
    } else {
        lemma_intern_push(vars.drop_first(), value, v);
        assert(vars.push(v)[0] == vars[0]);
        assert(vars.push(v).drop_first() =~= vars.drop_first().push(v));
        if intern_index(vars, value) is None && !is_asciiz_of(v, value) {
            assert(!is_asciiz_of(vars[0], value));
            assert(intern_index(vars.drop_first(), value) is None);
            assert(intern_index(vars.drop_first().push(v), value) is None);
            assert(intern_index(vars.push(v), value) is None);
        }
    }
}

/// A data section is interned when no two `.asciiz` entries hold the
/// same text.
pub open spec fn interned(vars: Seq<DataVariable>) -> bool {
    forall|value: Seq<char>| #[trigger] asciiz_count(vars, value) <= 1
}

} // verus!
