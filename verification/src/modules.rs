use vstd::prelude::*;
use vstd::string::StringExecFns;

use crate::ast::{Expr, TypeDefinition};

verus! {

broadcast use vstd::std_specs::vec::group_vec_axioms;

/// A compiled module: its name, its value bindings and its exported
/// type definitions, each in registration order.
#[derive(Debug)]
pub struct Module {
    pub name: String,
    pub bindings: Vec<(String, Expr)>,
    pub types: Vec<(String, TypeDefinition)>,
}

/// The names bound by a name/payload sequence, for lookups where the
/// last registration of a name wins.
pub open spec fn names_lookup<T>(entries: Seq<(String, T)>, name: Seq<char>) -> Option<
    int,
>
    decreases entries,
{
    if entries.len() == 0 {
        None
    } else if entries.last().0@ == name {
        Some(entries.len() - 1)
    } else {
        names_lookup(entries.take(entries.len() - 1), name)
    }
}

/// Find the index of the winning entry for `name`, scanning from the
/// end.
fn find_entry<T>(entries: &Vec<(String, T)>, name: &str) -> (r: Option<usize>)
    ensures
        match r {
            Some(i) => names_lookup(entries@, name@) == Some(i as int)
                && i < entries@.len(),
            None => names_lookup(entries@, name@) is None,
        },
{
    let mut i: usize = entries.len();
    proof {
        assert(entries@.take(entries@.len() as int) =~= entries@);
    }
    while i > 0
        invariant
            i <= entries@.len(),
            names_lookup(entries@, name@) == names_lookup(
                entries@.take(i as int),
                name@,
            ),
        decreases i,
    {
        i = i - 1;
        proof {
            assert(entries@.take(i + 1).last() == entries@[i as int]);
            assert(entries@.take(i + 1).take(i as int) =~= entries@.take(i as int));
        }
        if crate::value::str_eq(entries[i].0.as_str(), name) {
            return Some(i);
        }
    }
    None
}

/// The registry of modules, for qualified-name resolution and `open`
/// imports. Registering a name again replaces the earlier module.
#[derive(Debug)]
pub struct ModuleRegistry {
    pub modules: Vec<(String, Module)>,
}

impl ModuleRegistry {
    /// An empty registry.
    pub fn new() -> (r: ModuleRegistry)
        ensures
            r.modules@.len() == 0,
    {
        ModuleRegistry { modules: Vec::new() }
    }

    /// Register a module under `name` with its bindings and types; a
    /// later registration of the same name wins.
    pub fn register_module(
        &mut self,
        name: String,
        bindings: Vec<(String, Expr)>,
        types: Vec<(String, TypeDefinition)>,
    )
        ensures
            final(self).modules@.len() == old(self).modules@.len() + 1,
            names_lookup(final(self).modules@, name@)
                == Some(old(self).modules@.len() as int),
            final(self).modules@.last().1.name@ == name@,
            final(self).modules@.last().1.bindings == bindings,
            final(self).modules@.last().1.types == types,
            forall|other: Seq<char>| other != name@ ==> names_lookup(
                final(self).modules@,
                other,
            ) == names_lookup(old(self).modules@, other),
    {
        let ghost pre = self.modules@;
        let module = Module { name: name.clone(), bindings, types };
        self.modules.push((name, module));
        proof {
            assert forall|other: Seq<char>| other != self.modules@.last().0@
                implies names_lookup(self.modules@, other) == names_lookup(pre, other) by {
                assert(self.modules@.take(self.modules@.len() - 1) =~= pre);
            }
        }
    }

    /// The expression bound to `binding_name` in the module named
    /// `module_name`, if both exist.
    pub fn resolve_qualified(&self, module_name: &str, binding_name: &str) -> (r: Option<
        &Expr,
    >)
        ensures
            match r {
                Some(e) => names_lookup(self.modules@, module_name@) matches Some(i)
                    && (names_lookup(
                        self.modules@[i].1.bindings@,
                        binding_name@,
                    ) matches Some(j) && *e == self.modules@[i].1.bindings@[j].1),
                None => names_lookup(self.modules@, module_name@) is None
                    || (names_lookup(self.modules@, module_name@) matches Some(i)
                        && names_lookup(
                            self.modules@[i].1.bindings@,
                            binding_name@,
                        ) is None),
            },
    {
        match self.get_module(module_name) {
            Some(m) => match find_entry(&m.bindings, binding_name) {
                Some(i) => Some(&m.bindings[i].1),
                None => None,
            },
            None => None,
        }
    }

    /// All bindings of the module, for an `open` import.
    pub fn get_module_bindings(&self, module_name: &str) -> (r: Option<
        &Vec<(String, Expr)>,
    >)
        ensures
            r is Some <==> names_lookup(self.modules@, module_name@) is Some,
    {
        match self.get_module(module_name) {
            Some(m) => Some(&m.bindings),
            None => None,
        }
    }

    /// All type definitions of the module.
    pub fn get_module_types(&self, module_name: &str) -> (r: Option<
        &Vec<(String, TypeDefinition)>,
    >)
        ensures
            r is Some <==> names_lookup(self.modules@, module_name@) is Some,
    {
        match self.get_module(module_name) {
            Some(m) => Some(&m.types),
            None => None,
        }
    }

    /// Whether a module of this name is registered.
    pub fn has_module(&self, name: &str) -> (r: bool)
        ensures
            r == (names_lookup(self.modules@, name@) is Some),
    {
        match find_entry(&self.modules, name) {
            Some(_) => true,
            None => false,
        }
    }

    /// The module registered under `name`, if any.
    pub fn get_module(&self, name: &str) -> (r: Option<&Module>)
        ensures
            match r {
                Some(m) => names_lookup(self.modules@, name@) matches Some(i)
                    && *m == self.modules@[i].1,
                None => names_lookup(self.modules@, name@) is None,
            },
    {
        match find_entry(&self.modules, name) {
            Some(i) => Some(&self.modules[i].1),
            None => None,
        }
    }

    /// The registered module names, in registration order.
    pub fn module_names(&self) -> (r: Vec<&str>)
        ensures
            r@.len() == self.modules@.len(),
            forall|i: int| 0 <= i < r@.len() ==> (#[trigger] r@[i])@
                == self.modules@[i].0@,
    {
        let mut out: Vec<&str> = Vec::new();
        let mut i: usize = 0;
        while i < self.modules.len()
            invariant
                i <= self.modules@.len(),
                out@.len() == i,
                forall|j: int| 0 <= j < i ==> (#[trigger] out@[j])@
                    == self.modules@[j].0@,
            decreases self.modules@.len() - i,
        {
            out.push(self.modules[i].0.as_str());
            i = i + 1;
        }
        out
    }
}

/// The `.`-joined rendering of path components.
pub open spec fn path_render_spec(s: Seq<String>) -> Seq<char>
    decreases s,
{
    if s.len() == 0 {
        Seq::<char>::empty()
    } else if s.len() == 1 {
        s.last()@
    } else {
        path_render_spec(s.take(s.len() - 1)) + "."@ + s.last()@
    }
}

/// A path of nested module names, as in `Math.Geometry`.
#[derive(Debug, Clone, PartialEq)]
pub struct ModulePath {
    pub components: Vec<String>,
}

impl ModulePath {
    /// A path from its components.
    pub fn new(components: Vec<String>) -> (r: ModulePath)
        ensures
            r.components == components,
    {
        ModulePath { components }
    }

    /// A path of one component.
    pub fn single(name: String) -> (r: ModulePath)
        ensures
            r.components@.len() == 1,
            r.components@[0]@ == name@,
    {
        let mut components: Vec<String> = Vec::new();
        components.push(name);
        ModulePath { components }
    }

    /// The `.`-joined name of the whole path.
    pub fn qualified_name(&self) -> (r: String)
        ensures
            r@ == path_render_spec(self.components@),
    {
        let mut out = String::new();
        let mut i: usize = 0;
        while i < self.components.len()
            invariant
                i <= self.components@.len(),
                out@ == Seq::<char>::empty() + path_render_spec(
                    self.components@.take(i as int),
                ),
            decreases self.components@.len() - i,
        {
            if i > 0 {
                out.append(".");
            }
            out.append(self.components[i].as_str());
            proof {
                assert(self.components@.take(i + 1).take(i as int)
                    =~= self.components@.take(i as int));
                assert(self.components@.take(i + 1).last()
                    == self.components@[i as int]);
                assert(out@ =~= Seq::<char>::empty() + path_render_spec(
                    self.components@.take(i + 1),
                ));
            }
            i = i + 1;
        }
        proof {
            assert(self.components@.take(self.components@.len() as int)
                =~= self.components@);
            assert(out@ =~= path_render_spec(self.components@));
        }
        out
    }

    /// The last component, if the path is not empty.
    pub fn last(&self) -> (r: Option<&str>)
        ensures
            match r {
                Some(s) => self.components@.len() > 0
                    && s@ == self.components@.last()@,
                None => self.components@.len() == 0,
            },
    {
        if self.components.len() == 0 {
            None
        } else {
            Some(self.components[self.components.len() - 1].as_str())
        }
    }
}

} // verus!
