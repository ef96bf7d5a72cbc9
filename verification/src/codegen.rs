//! Code generation: lowering the typed statement list into a MIPS
//! program value.

pub mod context;
pub mod lowering;
pub mod mips;

use vstd::prelude::*;

use crate::ast::Statement;
use crate::codegen::context::Context;
use crate::codegen::lowering::{data_model, funcs_model, gen_model, regs_model, state_of, text_model};
use crate::mips::{interned, main_labels, MipsProgram};

verus! {

/// A code generator: lowers a statement list into a MIPS program,
/// recording data, text, registers and functions in the context. The
/// finished sections move out of the context into the returned program.
///
/// Generation succeeds exactly when the reference lowering
/// (`crate::codegen::lowering::gen_model`) succeeds on the statement
/// list, and then the returned program's text and data sections and the
/// context's register map, function map and counters are exactly the
/// reference lowering's; on failure the error is the reference
/// lowering's message. In addition, on success the generated text holds
/// exactly one `main:` label more than the context already had when the
/// context starts at the top level (none otherwise), the data section
/// stays interned, and the label of every newly registered function
/// precedes the first `main:`. A fresh context therefore yields a
/// program whose only `main:` is the entrypoint.
pub trait Codegen {
    fn generate(&self, ast: Vec<Statement>, context: &mut Context) -> (r: Result<
        MipsProgram,
        String,
    >)
        requires
            old(context).wf(),
        ensures
            final(context).wf(),
            match gen_model(ast@, state_of(*old(context))) {
                Result::Ok(m) => {
                    &&& r matches Result::Ok(prog)
                    &&& text_model(prog.text_section.statements@) == m.text
                    &&& data_model(prog.data_section.variables@) == m.data
                    &&& regs_model(final(context).register_map@) == m.regs
                    &&& funcs_model(final(context).function_map@) == m.funcs
                    &&& final(context).conditional_counter == m.cond
                    &&& final(context).buffer_counter == m.buf
                },
                Result::Err(e) => r matches Result::Err(msg) && msg@ == e,
            },
            match r {
                Result::Ok(prog) => {
                    &&& interned(prog.data_section.variables@)
                    &&& main_labels(prog.text_section.statements@) == main_labels(
                        old(context).text_section.statements@,
                    ) + if old(context).scope_level == 0 {
                        1nat
                    } else {
                        0nat
                    }
                    &&& (forall|k: int|
                        0 <= k < old(context).function_map@.len()
                            ==> final(context).function_map@[k] == old(context).function_map@[k])
                    &&& old(context).function_map@.len() <= final(context).function_map@.len()
                    &&& (forall|k: int|
                        old(context).function_map@.len() <= k
                            < final(context).function_map@.len()
                            ==> crate::mips::before_first_main(
                            prog.text_section.statements@,
                            (#[trigger] final(context).function_map@[k]).0@,
                        ))
                    &&& final(context).text_section.statements@.len() == 0
                    &&& final(context).data_section.variables@.len() == 0
                },
                Result::Err(_) => true,
            },
    ;
}

} // verus!
