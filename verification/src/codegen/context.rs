//! The code generator's context: the program sections under
//! construction, the virtual register map, the generated function table
//! and the label counters.

use vstd::prelude::*;
use vstd::string::*;

use crate::ast::context::{
    builtin_arg_types, builtin_function, builtin_return_type, is_builtin_name, signature_of,
    signature_matches,
};
use crate::ast::{Argument, Function};
use crate::mips::{interned, DataSection, TextSection};
use crate::text::str_eq;

verus! {

/// The first register bound to a source name in the register map.
pub open spec fn reg_lookup(m: Seq<(String, String)>, name: Seq<char>) -> Option<Seq<char>>
    decreases m.len(),
{
    if m.len() == 0 {
        Option::None
    } else if m[0].0@ == name {
        Option::Some(m[0].1@)
    } else {
        reg_lookup(m.drop_first(), name)
    }
}

/// The first function stored under a mangled name in the function map.
pub open spec fn fn_lookup(m: Seq<(String, Function)>, name: Seq<char>) -> Option<Function>
    decreases m.len(),
{
    if m.len() == 0 {
        Option::None
    } else if m[0].0@ == name {
        Option::Some(m[0].1)
    } else {
        fn_lookup(m.drop_first(), name)
    }
}

/// The code generator's context.
///
/// The register map binds each source name to one register for the
/// whole compilation unit; its size drives the `$t<N>` numbering. The
/// function map stores definitions under their mangled `__`-prefixed
/// names. The counters mint unique `__and_N` and `__buffer_N` labels.
pub struct Context {
    pub data_section: DataSection,
    pub text_section: TextSection,
    pub register_map: Vec<(String, String)>,
    pub function_map: Vec<(String, Function)>,
    pub scope_level: u32,
    pub conditional_counter: u32,
    pub buffer_counter: u32,
}

impl Context {
    /// The data section never holds two `.asciiz` entries with the same
    /// text.
    pub open spec fn wf(self) -> bool {
        interned(self.data_section.variables@)
    }

    pub fn new() -> (r: Context)
        ensures
            r.wf(),
            r.data_section.variables@ == Seq::<crate::mips::DataVariable>::empty(),
            r.text_section.statements@ == Seq::<crate::mips::MipsStatement>::empty(),
            r.register_map@ == Seq::<(String, String)>::empty(),
            r.function_map@ == Seq::<(String, Function)>::empty(),
            r.scope_level == 0,
            r.conditional_counter == 0,
            r.buffer_counter == 0,
    {
        let r = Context {
            data_section: DataSection { variables: Vec::new() },
            text_section: TextSection { statements: Vec::new() },
            register_map: Vec::new(),
            function_map: Vec::new(),
            scope_level: 0,
            conditional_counter: 0,
            buffer_counter: 0,
        };
        proof {
            crate::mips::lemma_intern_index_count(r.data_section.variables@, Seq::empty());
            assert forall|value: Seq<char>| #[trigger]
                crate::mips::asciiz_count(r.data_section.variables@, value) <= 1 by {}
        }
        r
    }

    /// The register bound to a source name, minting `$t<N>` (N the map
    /// size) on first use.
    pub fn get_register(&mut self, name: &str) -> (r: String)
        ensures
            final(self).data_section == old(self).data_section,
            final(self).text_section == old(self).text_section,
            final(self).function_map@ == old(self).function_map@,
            final(self).scope_level == old(self).scope_level,
            final(self).conditional_counter == old(self).conditional_counter,
            final(self).buffer_counter == old(self).buffer_counter,
            reg_lookup(final(self).register_map@, name@) == Option::Some(r@),
            match reg_lookup(old(self).register_map@, name@) {
                Option::Some(r0) => final(self).register_map@ == old(self).register_map@ && r@
                    == r0,
                Option::None => final(self).register_map@.len() == old(self).register_map@.len()
                    + 1 && final(self).register_map@.drop_last() == old(self).register_map@ && r@
                    == crate::codegen::mips::reg_name(old(self).register_map@.len()),
            },
    {
        crate::codegen::mips::find_or_create_reg(&mut self.register_map, String::from_str(name))
    }

    /// Resolves a callee for code generation: built-ins shadow
    /// user-defined functions, which are looked up under their mangled
    /// name. The returned record is a body-less signature copy; lowering
    /// reads bodies from the syntax tree alone.
    pub fn get_function(&self, name: &str) -> (r: Option<Function>)
        ensures
            r matches Option::Some(f) ==> f.body@.len() == 0,
            match r {
                Option::Some(f) => if is_builtin_name(name@) {
                    signature_matches(
                        f,
                        name@,
                        builtin_arg_types(name@),
                        builtin_return_type(name@),
                        true,
                    )
                } else {
                    match fn_lookup(self.function_map@, "__"@ + name@) {
                        Option::Some(g) => signature_matches(
                            f,
                            g.name@,
                            g.args@.map(|i: int, a: Argument| a.var_type),
                            g.return_type,
                            g.is_builtin,
                        ),
                        Option::None => false,
                    }
                },
                Option::None => !is_builtin_name(name@) && fn_lookup(
                    self.function_map@,
                    "__"@ + name@,
                ) is None,
            },
    {
        if let Option::Some(f) = builtin_function(name) {
            return Option::Some(f);
        }
        let mangled = crate::text::concat2("__", name);
        proof {
            assert(self.function_map@.skip(0) =~= self.function_map@);
        }
        let mut i: usize = 0;
        while i < self.function_map.len()
            invariant
                i <= self.function_map@.len(),
                !is_builtin_name(name@),
                mangled@ == "__"@ + name@,
                fn_lookup(self.function_map@, mangled@) == fn_lookup(
                    self.function_map@.skip(i as int),
                    mangled@,
                ),
            decreases self.function_map@.len() - i,
        {
            proof {
                let tail = self.function_map@.skip(i as int);
                assert(tail[0] == self.function_map@[i as int]);
                assert(tail.drop_first() =~= self.function_map@.skip(i + 1 as int));
            }
            if self.function_map[i].0.eq(&mangled) {
                proof {
                    let tail = self.function_map@.skip(i as int);
                    assert(tail[0] == self.function_map@[i as int]);
                    assert(fn_lookup(self.function_map@, mangled@) == Option::Some(
                        self.function_map@[i as int].1,
                    ));
                }
                let f = signature_of(&self.function_map[i].1);
                proof {
                    let g = self.function_map@[i as int].1;
                    let mapped = g.args@.map(|j: int, a: Argument| a.var_type);
                    assert(mapped.len() == g.args@.len());
                    assert forall|k: int| 0 <= k < mapped.len() implies mapped[k]
                        == g.args@[k].var_type by {}
                }
                return Option::Some(f);
            }
            i = i + 1;
        }
        proof {
            assert(self.function_map@.skip(self.function_map@.len() as int) =~= Seq::<
                (String, Function),
            >::empty());
        }
        Option::None
    }
}

impl Default for Context {
    fn default() -> (r: Context)
        ensures
            r.wf(),
            r.scope_level == 0,
            r.text_section.statements@ == Seq::<crate::mips::MipsStatement>::empty(),
            r.function_map@ == Seq::<(String, Function)>::empty(),
    {
        Context::new()
    }
}

} // verus!
