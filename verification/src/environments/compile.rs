//! Compile-time environments: the bindings that the compiler has declared in
//! one scope. A direct `eval` may add bindings to a scope long after the code
//! around it was compiled.

use crate::environments::runtime::BindingLocator;
use crate::interner::Identifier;
use vstd::prelude::*;

verus! {

/// A handle to a compile-time environment on the heap.
#[derive(Clone, Copy, Debug, PartialEq, Eq, Structural)]
pub struct CompileTimeEnvironmentRef {
    pub index: usize,
}

/// One declared binding. Its position in the environment is its binding
/// index.
#[derive(Clone, Copy, Debug)]
pub struct CompileTimeBinding {
    pub name: Identifier,
    /// Declared by `let`, `const` or `class`.
    pub lex: bool,
    /// Declared by `var`: it starts out as `undefined`.
    pub var: bool,
}

/// The bindings of one scope, as the compiler declared them.
#[derive(Debug)]
pub struct CompileTimeEnvironment {
    pub outer: Option<CompileTimeEnvironmentRef>,
    pub environment_index: usize,
    pub bindings: Vec<CompileTimeBinding>,
    pub function_scope: bool,
}

/// The first position before `end` at which `name` is declared.
pub open spec fn find_binding(bindings: Seq<CompileTimeBinding>, name: usize, end: int) -> Option<
    int,
>
    decreases end,
{
    if end <= 0 || end > bindings.len() {
        None
    } else {
        match find_binding(bindings, name, end - 1) {
            Some(i) => Some(i),
            None => if bindings[end - 1].name.index() == name {
                Some(end - 1)
            } else {
                None
            },
        }
    }
}

/// `find_binding` returns the least position that declares the name, and
/// nothing exactly when no position does.
pub proof fn lemma_find_binding(bindings: Seq<CompileTimeBinding>, name: usize, end: int)
    requires
        0 <= end <= bindings.len(),
    ensures
        match find_binding(bindings, name, end) {
            Some(i) => 0 <= i < end && bindings[i].name.index() == name && forall|k: int|
                0 <= k < i ==> bindings[k].name.index() != name,
            None => forall|k: int| 0 <= k < end ==> bindings[k].name.index() != name,
        },
    decreases end,
{
    if end > 0 {
        lemma_find_binding(bindings, name, end - 1);
    }
}

/// The positions before `end` whose binding was declared by `var`, in
/// ascending order.
pub open spec fn var_indices(bindings: Seq<CompileTimeBinding>, end: int) -> Seq<usize>
    decreases end,
{
    if end <= 0 || end > bindings.len() {
        Seq::empty()
    } else if bindings[end - 1].var {
        var_indices(bindings, end - 1).push((end - 1) as usize)
    } else {
        var_indices(bindings, end - 1)
    }
}

/// `var_indices` lists exactly the positions of the `var` bindings.
pub proof fn lemma_var_indices(bindings: Seq<CompileTimeBinding>, end: int)
    requires
        0 <= end <= bindings.len(),
        bindings.len() <= usize::MAX,
    ensures
        forall|k: int|
            0 <= k < var_indices(bindings, end).len() ==> 0 <= (#[trigger] var_indices(
                bindings,
                end,
            )[k]) < end && bindings[var_indices(bindings, end)[k] as int].var,
        forall|i: int|
            0 <= i < end && bindings[i].var ==> var_indices(bindings, end).contains(i as usize),
    decreases end,
{
    if end > 0 {
        lemma_var_indices(bindings, end - 1);
        let prev = var_indices(bindings, end - 1);
        let cur = var_indices(bindings, end);
        if bindings[end - 1].var {
            assert(cur == prev.push((end - 1) as usize));
            assert forall|i: int| 0 <= i < end && bindings[i].var implies cur.contains(
                i as usize,
            ) by {
                if i < end - 1 {
                    let k = choose|k: int| 0 <= k < prev.len() && prev[k] == i as usize;
                    assert(cur[k] == i as usize);
                } else {
                    assert(cur[cur.len() - 1] == i as usize);
                }
            }
        }
    }
}

impl CompileTimeEnvironment {
    /// The compile-time environment of the global scope: no bindings, no
    /// outer scope, environment index 0.
    pub fn new_global() -> (env: Self)
        ensures
            env.outer is None,
            env.environment_index == 0,
            env.bindings@ == Seq::<CompileTimeBinding>::empty(),
            env.function_scope,
    {
        CompileTimeEnvironment {
            outer: None,
            environment_index: 0,
            bindings: Vec::new(),
            function_scope: true,
        }
    }

    /// A compile-time environment without bindings, for the scope that
    /// stands at `environment_index` on the environment stack.
    pub fn new(
        outer: CompileTimeEnvironmentRef,
        environment_index: usize,
        function_scope: bool,
    ) -> (env: Self)
        ensures
            env.outer == Some(outer),
            env.environment_index == environment_index,
            env.bindings@ == Seq::<CompileTimeBinding>::empty(),
            env.function_scope == function_scope,
    {
        CompileTimeEnvironment {
            outer: Some(outer),
            environment_index,
            bindings: Vec::new(),
            function_scope,
        }
    }

    /// The position at which `name` is declared here, if it is.
    pub open spec fn lookup(self, name: usize) -> Option<int> {
        find_binding(self.bindings@, name, self.bindings@.len() as int)
    }

    /// Whether `name` is declared here by `let`, `const` or `class`.
    pub open spec fn spec_has_lex_binding(self, name: usize) -> bool {
        match self.lookup(name) {
            Some(i) => self.bindings@[i].lex,
            None => false,
        }
    }

    /// The position at which `name` is declared here, if it is.
    pub fn position(&self, name: Identifier) -> (found: Option<usize>)
        ensures
            match found {
                Some(i) => self.lookup(name.index()) == Some(i as int) && i < self.bindings@.len(),
                None => self.lookup(name.index()) is None,
            },
    {
        let mut i: usize = 0;
        while i < self.bindings.len()
            invariant
                0 <= i <= self.bindings@.len(),
                find_binding(self.bindings@, name.index(), i as int) is None,
            decreases self.bindings@.len() - i,
        {
            if self.bindings[i].name.same(&name) {
                proof {
                    lemma_found_stays(self.bindings@, name.index(), i as int + 1);
                }
                return Some(i);
            }
            i += 1;
        }
        None
    }

    /// The number of bindings declared here.
    pub fn num_bindings(&self) -> (n: usize)
        ensures
            n == self.bindings@.len(),
    {
        self.bindings.len()
    }

    /// Whether this is the scope of a function body (or the global scope).
    pub fn is_function(&self) -> (b: bool)
        ensures
            b == self.function_scope,
    {
        self.function_scope
    }

    /// The index on the environment stack of the scope that this
    /// environment describes.
    pub fn environment_index(&self) -> (index: usize)
        ensures
            index == self.environment_index,
    {
        self.environment_index
    }

    /// Whether `name` is declared here.
    pub fn has_binding(&self, name: Identifier) -> (b: bool)
        ensures
            b == self.lookup(name.index()).is_some(),
    {
        self.position(name).is_some()
    }

    /// Whether `name` is declared here by `let`, `const` or `class`.
    pub fn has_lex_binding(&self, name: Identifier) -> (b: bool)
        ensures
            b == self.spec_has_lex_binding(name.index()),
    {
        match self.position(name) {
            Some(i) => self.bindings[i].lex,
            None => false,
        }
    }

    /// The locator of `name` if it is declared here: this environment's
    /// index and the binding's position.
    pub fn get_binding(&self, name: Identifier) -> (locator: Option<BindingLocator>)
        ensures
            match self.lookup(name.index()) {
                Some(i) => locator == Some(
                    BindingLocator::spec_declarative(name, self.environment_index, i as usize),
                ),
                None => locator is None,
            },
    {
        match self.position(name) {
            Some(i) => Some(BindingLocator::declarative(name, self.environment_index, i)),
            None => None,
        }
    }

    /// The positions of the bindings declared by `var`, in ascending order.
    pub fn var_binding_indices(&self) -> (indices: Vec<usize>)
        ensures
            indices@ == var_indices(self.bindings@, self.bindings@.len() as int),
    {
        let mut indices: Vec<usize> = Vec::new();
        let mut i: usize = 0;
        while i < self.bindings.len()
            invariant
                0 <= i <= self.bindings@.len(),
                indices@ == var_indices(self.bindings@, i as int),
            decreases self.bindings@.len() - i,
        {
            if self.bindings[i].var {
                indices.push(i);
            }
            i += 1;
        }
        indices
    }

    /// Declares `name` at the next free position, unless it is declared
    /// already. Returns whether the binding was added.
    pub fn create_binding(&mut self, name: Identifier, lex: bool, var: bool) -> (added: bool)
        ensures
            added == old(self).lookup(name.index()).is_none(),
            added ==> final(self).bindings@ == old(self).bindings@.push(
                CompileTimeBinding { name, lex, var },
            ),
            !added ==> final(self).bindings@ == old(self).bindings@,
            final(self).outer == old(self).outer,
            final(self).environment_index == old(self).environment_index,
            final(self).function_scope == old(self).function_scope,
    {
        if self.position(name).is_some() {
            false
        } else {
            self.bindings.push(CompileTimeBinding { name, lex, var });
            true
        }
    }
}

/// Once a name is found before `end`, it is found at the same position
/// before any later end.
pub proof fn lemma_found_stays(bindings: Seq<CompileTimeBinding>, name: usize, end: int)
    requires
        0 < end <= bindings.len(),
        find_binding(bindings, name, end - 1) is None,
        bindings[end - 1].name.index() == name,
    ensures
        find_binding(bindings, name, bindings.len() as int) == Some(end - 1),
{
    lemma_find_binding(bindings, name, end);
    lemma_find_binding(bindings, name, bindings.len() as int);
}

} // verus!
