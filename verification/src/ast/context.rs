//! Scoped symbol tables for variables and functions, consulted by the
//! parser while it resolves identifiers and checks types.

use vstd::prelude::*;
use vstd::string::*;

use crate::text::{str_eq, string_eq_str};

use crate::ast::{Argument, Function, Span, Statement, VarType, Variable};

verus! {

/// The first variable of the scope whose name is `name`, in declaration
/// order.
pub open spec fn lookup_in_scope(scope: Seq<Variable>, name: Seq<char>) -> Option<Variable>
    decreases scope.len(),
{
    if scope.len() == 0 {
        Option::None
    } else if scope[0].name@ == name {
        Option::Some(scope[0])
    } else {
        lookup_in_scope(scope.drop_first(), name)
    }
}

/// Scope lookup, from the innermost scope (the last) outwards: the nearest
/// binding wins.
pub open spec fn lookup_scopes(scopes: Seq<Vec<Variable>>, name: Seq<char>) -> Option<Variable>
    decreases scopes.len(),
{
    if scopes.len() == 0 {
        Option::None
    } else {
        match lookup_in_scope(scopes.last()@, name) {
            Option::Some(v) => Option::Some(v),
            Option::None => lookup_scopes(scopes.drop_last(), name),
        }
    }
}

/// The names of the four built-in functions.
pub open spec fn is_builtin_name(name: Seq<char>) -> bool {
    name == "write_string"@ || name == "write_int"@ || name == "read_int"@ || name
        == "read_string"@
}

/// The argument types of a built-in function.
pub open spec fn builtin_arg_types(name: Seq<char>) -> Seq<VarType> {
    if name == "write_string"@ {
        seq![VarType::Str]
    } else if name == "write_int"@ {
        seq![VarType::I32]
    } else if name == "read_int"@ {
        seq![]
    } else {
        seq![VarType::U32]
    }
}

/// The return type of a built-in function.
pub open spec fn builtin_return_type(name: Seq<char>) -> VarType {
    if name == "write_string"@ {
        VarType::Void
    } else if name == "write_int"@ {
        VarType::Void
    } else if name == "read_int"@ {
        VarType::I32
    } else {
        VarType::Str
    }
}

/// Two functions agree on everything a caller can observe: name,
/// argument types, return type, and origin.
pub open spec fn signature_matches(f: Function, name: Seq<char>, args: Seq<VarType>, ret: VarType, is_builtin: bool) -> bool {
    &&& f.name@ == name
    &&& f.args@.len() == args.len()
    &&& (forall|i: int| 0 <= i < args.len() ==> (#[trigger] f.args@[i]).var_type == args[i])
    &&& f.return_type == ret
    &&& f.is_builtin == is_builtin
}

/// Whether some function in the table bears the name.
pub open spec fn has_function(fns: Seq<Function>, name: Seq<char>) -> bool {
    exists|i: int| 0 <= i < fns.len() && (#[trigger] fns[i]).name@ == name
}

/// The first function in the table with the name.
pub open spec fn lookup_function(fns: Seq<Function>, name: Seq<char>) -> Option<Function>
    decreases fns.len(),
{
    if fns.len() == 0 {
        Option::None
    } else if fns[0].name@ == name {
        Option::Some(fns[0])
    } else {
        lookup_function(fns.drop_first(), name)
    }
}

/// The parser's context: a stack of lexical scopes holding variables in
/// declaration order, and the user-defined function table.
///
/// `scope_level` is the current lexical depth; the scope at that level is
/// the innermost one. The stack always holds exactly `scope_level + 1`
/// scopes.
pub struct Context {
    pub scope_level: usize,
    pub variables: Vec<Vec<Variable>>,
    pub functions: Vec<Function>,
    pub optimization_level: u8,
}

impl Context {
    /// The scope stack is exactly as deep as the scope level says.
    pub open spec fn wf(self) -> bool {
        self.variables@.len() == self.scope_level + 1
    }

    /// The variable a name denotes, per nearest-binding-wins lookup.
    pub open spec fn spec_get_variable(self, name: Seq<char>) -> Option<Variable> {
        lookup_scopes(self.variables@, name)
    }

    /// The type a name denotes, if it is bound.
    pub open spec fn spec_variable_type(self, name: Seq<char>) -> Option<VarType> {
        match self.spec_get_variable(name) {
            Option::Some(v) => Option::Some(v.var_type),
            Option::None => Option::None,
        }
    }

    pub fn new(optimization_level: u8) -> (r: Context)
        ensures
            r.wf(),
            r.scope_level == 0,
            r.variables@.len() == 1,
            r.variables@[0]@ == Seq::<Variable>::empty(),
            r.functions@ == Seq::<Function>::empty(),
            r.optimization_level == optimization_level,
    {
        let mut variables: Vec<Vec<Variable>> = Vec::new();
        variables.push(Vec::new());
        Context { scope_level: 0, variables, functions: Vec::new(), optimization_level }
    }

    /// Enters a lexical scope one level deeper.
    pub fn push_scope(&mut self)
        requires
            old(self).wf(),
        ensures
            final(self).wf(),
            final(self).scope_level == old(self).scope_level + 1,
            final(self).variables@.len() == old(self).variables@.len() + 1,
            forall|k: int|
                0 <= k < old(self).variables@.len() ==> final(self).variables@[k] == old(
                    self,
                ).variables@[k],
            final(self).variables@.last()@ == Seq::<Variable>::empty(),
            final(self).functions@ == old(self).functions@,
    {
        self.variables.push(Vec::new());
        self.scope_level = self.variables.len() - 1;
    }

    /// Leaves the innermost scope, dropping its bindings.
    pub fn pop_scope(&mut self)
        requires
            old(self).wf(),
            old(self).scope_level > 0,
        ensures
            final(self).wf(),
            final(self).scope_level == old(self).scope_level - 1,
            final(self).variables@ == old(self).variables@.drop_last(),
            final(self).functions@ == old(self).functions@,
    {
        self.variables.pop();
        self.scope_level = self.scope_level - 1;
    }

    /// Records a declaration in the innermost scope.
    pub fn add_variable(&mut self, statement: Statement)
        requires
            old(self).wf(),
            statement is VariableDeclaration,
        ensures
            final(self).wf(),
            final(self).scope_level == old(self).scope_level,
            final(self).functions@ == old(self).functions@,
            final(self).variables@.len() == old(self).variables@.len(),
            forall|k: int|
                0 <= k < final(self).variables@.len() - 1 ==> final(self).variables@[k] == old(
                    self,
                ).variables@[k],
            final(self).variables@.last()@ == old(self).variables@.last()@.push(
                statement->VariableDeclaration_0,
            ),
    {
        let variable = match statement {
            Statement::VariableDeclaration(v) => v,
            _ => vstd::pervasive::unreached(),
        };
        let mut top = self.variables.pop().unwrap();
        top.push(variable);
        self.variables.push(top);
    }

    /// Finds the nearest binding of a name, scanning the scopes from the
    /// current level down to the top level.
    pub fn get_variable(&self, name: String) -> (r: Option<&Variable>)
        requires
            self.wf(),
        ensures
            match r {
                Option::Some(v) => self.spec_get_variable(name@) == Option::Some(*v),
                Option::None => self.spec_get_variable(name@) is None,
            },
    {
        proof {
            assert(self.variables@.take(self.variables@.len() as int) =~= self.variables@);
        }
        scopes_find(&self.variables, self.variables.len(), name.as_str())
    }

    /// Registers a user-defined function; rejects a name that is already
    /// taken.
    pub fn add_function(&mut self, function: &Function) -> (r: Result<(), String>)
        ensures
            final(self).scope_level == old(self).scope_level,
            final(self).variables@ == old(self).variables@,
            match r {
                Result::Ok(_) => !has_function(old(self).functions@, function.name@)
                    && final(self).functions@.len() == old(self).functions@.len() + 1
                    && final(self).functions@.drop_last() == old(self).functions@ && {
                    let f = final(self).functions@.last();
                    &&& f.name@ == function.name@
                    &&& f.args@.len() == function.args@.len()
                    &&& (forall|i: int|
                        0 <= i < f.args@.len() ==> (#[trigger] f.args@[i]).var_type
                            == function.args@[i].var_type && f.args@[i].name@
                            == function.args@[i].name@)
                    &&& f.return_type == function.return_type
                    &&& f.is_builtin == function.is_builtin
                    &&& f.body@.len() == 0
                },
                Result::Err(m) => has_function(old(self).functions@, function.name@)
                    && final(self).functions@ == old(self).functions@ && m@ == "Function `"@
                    + function.name@ + "` already defined"@,
            },
    {
        let mut i: usize = 0;
        while i < self.functions.len()
            invariant
                i <= self.functions@.len(),
                forall|k: int| 0 <= k < i ==> (#[trigger] self.functions@[k]).name@ != function.name@,
                self.functions@ == old(self).functions@,
                self.scope_level == old(self).scope_level,
                self.variables@ == old(self).variables@,
            decreases self.functions@.len() - i,
        {
            if self.functions[i].name.eq(&function.name) {
                let mut message = String::from_str("Function `");
                message.append(function.name.as_str());
                message.append("` already defined");
                return Result::Err(message);
            }
            i = i + 1;
        }
        self.functions.push(signature_of(function));
        Result::Ok(())
    }

    /// Resolves a callee: a built-in of that name takes priority, then a
    /// user-defined function. The returned record is a body-less
    /// signature copy; callers read bodies from the syntax tree alone.
    pub fn get_function(&self, name: &str) -> (r: Option<Function>)
        ensures
            r matches Option::Some(f) ==> f.body@.len() == 0,
            match r {
                Option::Some(f) => if is_builtin_name(name@) {
                    signature_matches(
                        f,
                        name@,
                        builtin_arg_types(name@),
                        builtin_return_type(name@),
                        true,
                    )
                } else {
                    has_function(self.functions@, name@) && match lookup_function(
                        self.functions@,
                        name@,
                    ) {
                        Option::Some(g) => signature_matches(
                            f,
                            g.name@,
                            g.args@.map(|i: int, a: Argument| a.var_type),
                            g.return_type,
                            g.is_builtin,
                        ),
                        Option::None => false,
                    }
                },
                Option::None => !is_builtin_name(name@) && !has_function(self.functions@, name@),
            },
    {
        if let Option::Some(f) = builtin_function(name) {
            return Option::Some(f);
        }
        proof {
            assert(self.functions@.skip(0) =~= self.functions@);
        }
        match functions_find(&self.functions, 0, name) {
            Option::Some(f) => {
                proof {
                    lemma_lookup_function_found(self.functions@, name@);
                }
                Option::Some(signature_of(f))
            },
            Option::None => {
                proof {
                    lemma_lookup_function_found(self.functions@, name@);
                }
                Option::None
            },
        }
    }
}

impl Default for Context {
    fn default() -> (r: Context)
        ensures
            r.wf(),
            r.scope_level == 0,
            r.functions@ == Seq::<Function>::empty(),
    {
        Context::new(0)
    }
}


/// Scans one scope from index `j` on for the first variable with the name.
fn scope_find<'a>(scope: &'a Vec<Variable>, j: usize, name: &str) -> (r: Option<&'a Variable>)
    requires
        j <= scope@.len(),
    ensures
        match r {
            Option::Some(v) => lookup_in_scope(scope@.skip(j as int), name@) == Option::Some(*v),
            Option::None => lookup_in_scope(scope@.skip(j as int), name@) is None,
        },
    decreases scope@.len() - j,
{
    if j == scope.len() {
        proof {
            assert(scope@.skip(j as int) =~= Seq::<Variable>::empty());
        }
        Option::None
    } else {
        proof {
            assert(scope@.skip(j as int)[0] == scope@[j as int]);
            assert(scope@.skip(j as int).drop_first() =~= scope@.skip(j + 1 as int));
        }
        if string_eq_str(&scope[j].name, name) {
            Option::Some(&scope[j])
        } else {
            scope_find(scope, j + 1, name)
        }
    }
}

/// Scans the first `count` scopes, innermost (highest index) first.
fn scopes_find<'a>(scopes: &'a Vec<Vec<Variable>>, count: usize, name: &str) -> (r: Option<
    &'a Variable,
>)
    requires
        count <= scopes@.len(),
    ensures
        match r {
            Option::Some(v) => lookup_scopes(scopes@.take(count as int), name@) == Option::Some(
                *v,
            ),
            Option::None => lookup_scopes(scopes@.take(count as int), name@) is None,
        },
    decreases count,
{
    if count == 0 {
        Option::None
    } else {
        let ghost prefix = scopes@.take(count as int);
        proof {
            assert(prefix.last() == scopes@[count - 1]);
            assert(prefix.drop_last() =~= scopes@.take(count - 1));
            assert(scopes@[count - 1]@.skip(0) =~= scopes@[count - 1]@);
        }
        match scope_find(&scopes[count - 1], 0, name) {
            Option::Some(v) => Option::Some(v),
            Option::None => scopes_find(scopes, count - 1, name),
        }
    }
}

/// Scans the function table from index `j` on for the first function with
/// the name.
fn functions_find<'a>(fns: &'a Vec<Function>, j: usize, name: &str) -> (r: Option<&'a Function>)
    requires
        j <= fns@.len(),
    ensures
        match r {
            Option::Some(f) => lookup_function(fns@.skip(j as int), name@) == Option::Some(*f),
            Option::None => lookup_function(fns@.skip(j as int), name@) is None,
        },
    decreases fns@.len() - j,
{
    if j == fns.len() {
        proof {
            assert(fns@.skip(j as int) =~= Seq::<Function>::empty());
        }
        Option::None
    } else {
        proof {
            assert(fns@.skip(j as int)[0] == fns@[j as int]);
            assert(fns@.skip(j as int).drop_first() =~= fns@.skip(j + 1 as int));
        }
        if str_eq(fns[j].name.as_str(), name) {
            Option::Some(&fns[j])
        } else {
            functions_find(fns, j + 1, name)
        }
    }
}

/// A name is found by `lookup_function` exactly when some entry bears it.
pub proof fn lemma_lookup_function_found(fns: Seq<Function>, name: Seq<char>)
    ensures
        lookup_function(fns, name) is Some <==> has_function(fns, name),
        match lookup_function(fns, name) {
            Option::Some(f) => f.name@ == name,
            Option::None => true,
        },
    decreases fns.len(),
{
    if fns.len() > 0 {
        lemma_lookup_function_found(fns.drop_first(), name);
        if fns[0].name@ == name {
            assert(has_function(fns, name));
        } else {
            if has_function(fns.drop_first(), name) {
                let i = choose|i: int|
                    0 <= i < fns.drop_first().len() && (#[trigger] fns.drop_first()[i]).name@
                        == name;
                assert(fns[i + 1].name@ == name);
            }
            if has_function(fns, name) {
                let i = choose|i: int| 0 <= i < fns.len() && (#[trigger] fns[i]).name@ == name;
                assert(fns.drop_first()[i - 1].name@ == name);
            }
        }
    }
}

/// A copy of a function that keeps everything a caller can observe and
/// drops the body, which lookups never need.
pub(crate) fn signature_of(function: &Function) -> (r: Function)
    ensures
        r.name@ == function.name@,
        r.args@.len() == function.args@.len(),
        forall|i: int|
            0 <= i < r.args@.len() ==> (#[trigger] r.args@[i]).var_type
                == function.args@[i].var_type && r.args@[i].name@ == function.args@[i].name@,
        r.return_type == function.return_type,
        r.is_builtin == function.is_builtin,
        r.location == function.location,
        r.body@.len() == 0,
{
    let mut args: Vec<Argument> = Vec::new();
    let mut i: usize = 0;
    while i < function.args.len()
        invariant
            i <= function.args@.len(),
            args@.len() == i,
            forall|k: int|
                0 <= k < i ==> (#[trigger] args@[k]).var_type == function.args@[k].var_type
                    && args@[k].name@ == function.args@[k].name@,
        decreases function.args@.len() - i,
    {
        args.push(Argument {
            name: function.args[i].name.clone(),
            var_type: function.args[i].var_type,
        });
        i = i + 1;
    }
    Function {
        name: function.name.clone(),
        location: function.location,
        args,
        body: Vec::new(),
        return_type: function.return_type,
        is_builtin: function.is_builtin,
    }
}

/// One built-in function's full record, or nothing if the name is not a
/// built-in.
pub(crate) fn builtin_function(name: &str) -> (r: Option<Function>)
    ensures
        r matches Option::Some(f) ==> f.body@.len() == 0,
        match r {
            Option::Some(f) => is_builtin_name(name@) && signature_matches(
                f,
                name@,
                builtin_arg_types(name@),
                builtin_return_type(name@),
                true,
            ),
            Option::None => !is_builtin_name(name@),
        },
{
    let zero = Span { start: 0, end: 0 };
    if str_eq(name, "write_string") {
        let mut args: Vec<Argument> = Vec::new();
        args.push(Argument { name: String::from_str("message"), var_type: VarType::Str });
        Option::Some(
            Function {
                name: String::from_str("write_string"),
                location: zero,
                args,
                body: Vec::new(),
                return_type: VarType::Void,
                is_builtin: true,
            },
        )
    } else if str_eq(name, "write_int") {
        let mut args: Vec<Argument> = Vec::new();
        args.push(Argument { name: String::from_str("number"), var_type: VarType::I32 });
        Option::Some(
            Function {
                name: String::from_str("write_int"),
                location: zero,
                args,
                body: Vec::new(),
                return_type: VarType::Void,
                is_builtin: true,
            },
        )
    } else if str_eq(name, "read_int") {
        Option::Some(
            Function {
                name: String::from_str("read_int"),
                location: zero,
                args: Vec::new(),
                body: Vec::new(),
                return_type: VarType::I32,
                is_builtin: true,
            },
        )
    } else if str_eq(name, "read_string") {
        let mut args: Vec<Argument> = Vec::new();
        args.push(Argument { name: String::from_str("size"), var_type: VarType::U32 });
        Option::Some(
            Function {
                name: String::from_str("read_string"),
                location: zero,
                args,
                body: Vec::new(),
                return_type: VarType::Str,
                is_builtin: true,
            },
        )
    } else {
        Option::None
    }
}

} // verus!
