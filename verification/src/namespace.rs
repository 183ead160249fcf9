//! Namespaces: the vars of the interpreter by name.
use crate::collections::{data, lemma_data_index};
use crate::errors::{
    EvaluationError, EvaluationResult, Failure, InterpreterError, SymbolEvaluationError,
};
use crate::state::{
    find_name, find_space, lemma_contents_push, lemma_contents_update, opt_datum, spaces,
    var_of, Cells, Interpreter,
};
use crate::value::{lemma_texts_push, opt_text, texts, Datum, Value};
use crate::world::{
    deref_var, indexed, intern_fresh, intern_in, resolve_symbol, resolve_symbol_to_var,
    resolve_var, space_place, space_without, unintern, Space, World,
};
use vstd::prelude::*;

verus! {

/// The name of the namespace that an interpreter starts in. It holds the
/// primitives, the definitions of the core source and what the user
/// defines.
pub const DEFAULT_NAME: &'static str = "core";

/// A named set of bindings that a host hands to an interpreter.
pub struct Namespace {
    pub name: String,
    pub names: Vec<String>,
    pub values: Vec<Value>,
}

impl Namespace {
    /// The namespace of the given name, without bindings.
    pub fn new(name: &str) -> (r: Namespace)
        ensures
            r.name@ == name@,
            r.names@.len() == 0,
            r.values@.len() == 0,
    {
        Namespace { name: String::from_str(name), names: Vec::new(), values: Vec::new() }
    }

    /// Adds a binding; it comes after the bindings that are there.
    pub fn intern(&mut self, identifier: &str, value: &Value)
        ensures
            final(self).name == old(self).name,
            texts(final(self).names@) == texts(old(self).names@).push(identifier@),
            data(final(self).values@) == data(old(self).values@).push(value@),
    {
        let owned = String::from_str(identifier);
        let v = value.clone();
        proof {
            lemma_texts_push(self.names@, owned);
            crate::collections::lemma_data_push(self.values@, v);
        }
        self.names.push(owned);
        self.values.push(v);
    }
}

/// The state with a namespace of the given name, where none was there.
pub open spec fn with_space(w: World, name: Seq<char>) -> World {
    if space_place(w.namespaces, name, 0) is Some {
        w
    } else {
        World {
            namespaces: w.namespaces.push(
                Space { name: name, names: Seq::empty(), cells: Seq::empty() },
            ),
            ..w
        }
    }
}

/// The state after interning, in order, the first `n` bindings in the
/// namespace `ns`.
pub open spec fn intern_all(
    w: World,
    ns: Seq<char>,
    names: Seq<Seq<char>>,
    values: Seq<Datum>,
    n: nat,
) -> World
    decreases n,
{
    if n == 0 || n > names.len() || n > values.len() {
        w
    } else {
        intern_in(
            intern_all(w, ns, names, values, (n - 1) as nat),
            ns,
            names[n - 1],
            Some(values[n - 1]),
        ).0
    }
}

/// The index with, in order, the first `n` names.
pub open spec fn indexed_all(index: Option<Seq<Seq<char>>>, names: Seq<Seq<char>>, n: nat)
    -> Option<Seq<Seq<char>>>
    decreases n,
{
    if n == 0 || n > names.len() {
        index
    } else {
        indexed(indexed_all(index, names, (n - 1) as nat), names[n - 1])
    }
}

/// The index with the names of the first `k` namespaces.
pub open spec fn indexed_spaces(index: Option<Seq<Seq<char>>>, all: Seq<Space>, k: nat) -> Option<
    Seq<Seq<char>>,
>
    decreases k,
{
    if k == 0 || k > all.len() {
        index
    } else {
        indexed_all(
            indexed_spaces(index, all, (k - 1) as nat),
            all[k - 1].names,
            all[k - 1].names.len(),
        )
    }
}

/// Adds a name to an index that holds each name once.
pub fn index_name(index: &mut Vec<String>, id: &str)
    ensures
        Some(texts(final(index)@)) == indexed(Some(texts(old(index)@)), id@),
{
    if find_name(index, id).is_none() {
        let owned = String::from_str(id);
        proof {
            lemma_texts_push(index@, owned);
        }
        index.push(owned);
    }
}

impl Interpreter {
    /// Adds a name to the index of symbols, where one is kept.
    pub fn note_symbol(&mut self, id: &str)
        ensures
            final(self)@ == (World {
                symbol_index: indexed(old(self)@.symbol_index, id@),
                ..old(self)@
            }),
            final(self).depth == old(self).depth,
    {
        let taken = self.symbol_index.take();
        match taken {
            Some(mut names) => {
                index_name(&mut names, id);
                self.symbol_index = Some(names);
            },
            None => {
                self.symbol_index = None;
            },
        }
    }

    /// Makes the namespace of the given name, where it is missing.
    pub fn add_namespace(&mut self, name: &str)
        ensures
            final(self)@ == with_space(old(self)@, name@),
            final(self).depth == old(self).depth,
    {
        if find_space(&self.namespaces, name).is_none() {
            let c = Cells { name: String::from_str(name), names: Vec::new(), cells: Vec::new() };
            assert(c@.names =~= Seq::<Seq<char>>::empty());
            assert(c@.cells =~= Seq::<usize>::empty());
            self.namespaces.push(c);
            assert(spaces(self.namespaces@) =~= spaces(old(self).namespaces@).push(c@));
        }
    }

    /// Interns a var in the namespace `ns`: the var of that name gets the
    /// content, or a new var is made.
    pub fn intern_in_namespace(&mut self, ns: &str, identifier: &str, content: Option<Value>) -> (r:
        EvaluationResult<Value>)
        ensures
            final(self)@ == intern_in(old(self)@, ns@, identifier@, opt_datum(content)).0,
            match r {
                Ok(v) => intern_in(old(self)@, ns@, identifier@, opt_datum(content)).1 == Ok::<Datum, Failure>(v@),
                Err(e) => intern_in(old(self)@, ns@, identifier@, opt_datum(content)).1 == Err::<Datum, Failure>(e@),
            },
            final(self).depth == old(self).depth,
    {
        let k = match find_space(&self.namespaces, ns) {
            Some(k) => k,
            None => {
                return Err(
                    EvaluationError::Interpreter(
                        InterpreterError::MissingNamespace(String::from_str(ns)),
                    ),
                );
            },
        };
        let ghost w = self@;
        assert(spaces(self.namespaces@)[k as int] == self.namespaces@[k as int]@);
        match self.namespaces[k].get(identifier) {
            Some(cell) => {
                if cell < self.vars.len() {
                    proof {
                        lemma_contents_update(self.vars@, cell as int, content);
                    }
                    self.vars.set(cell, content);
                    self.note_symbol(identifier);
                    return Ok(var_of(cell, ns, identifier));
                }
            },
            None => {},
        }
        let cell = self.vars.len();
        proof {
            lemma_contents_push(self.vars@, content);
        }
        self.vars.push(content);
        let mut cleared = self.namespaces[k].without(identifier);
        let ghost sp = w.namespaces[k as int];
        let ghost bare = space_without(sp, identifier@);
        assert(cleared@ == bare);
        let owned = String::from_str(identifier);
        proof {
            lemma_texts_push(cleared.names@, owned);
        }
        cleared.names.push(owned);
        cleared.cells.push(cell);
        let ghost filled = Space {
            name: sp.name,
            names: bare.names.push(identifier@),
            cells: bare.cells.push(cell),
        };
        assert(cleared@ == filled);
        self.namespaces.set(k, cleared);
        assert(spaces(self.namespaces@) =~= w.namespaces.update(k as int, filled));
        assert(cell == w.vars.len());
        self.note_symbol(identifier);
        assert(self@.vars == w.vars.push(opt_datum(content)));
        assert(self@.namespaces == w.namespaces.update(k as int, filled));
        assert(self@.symbol_index == indexed(w.symbol_index, identifier@));
        assert(self@ == intern_fresh(w, k as int, ns@, identifier@, opt_datum(content)).0);
        Ok(var_of(cell, ns, identifier))
    }

    /// Interns a var with a value in the current namespace.
    pub fn intern_var(&mut self, identifier: &str, value: Value) -> (r: EvaluationResult<Value>)
        ensures
            final(self)@ == intern_in(
                old(self)@,
                old(self)@.current_namespace,
                identifier@,
                Some(value@),
            ).0,
            match r {
                Ok(v) => intern_in(
                    old(self)@,
                    old(self)@.current_namespace,
                    identifier@,
                    Some(value@),
                ).1 == Ok::<Datum, Failure>(v@),
                Err(e) => intern_in(
                    old(self)@,
                    old(self)@.current_namespace,
                    identifier@,
                    Some(value@),
                ).1 == Err::<Datum, Failure>(e@),
            },
            final(self).depth == old(self).depth,
    {
        let ns = self.current_namespace.clone();
        self.intern_in_namespace(ns.as_str(), identifier, Some(value))
    }

    /// Interns an unbound var in the current namespace.
    pub fn intern_unbound_var(&mut self, identifier: &str) -> (r: EvaluationResult<Value>)
        ensures
            final(self)@ == intern_in(
                old(self)@,
                old(self)@.current_namespace,
                identifier@,
                None,
            ).0,
            match r {
                Ok(v) => intern_in(old(self)@, old(self)@.current_namespace, identifier@, None).1
                    == Ok::<Datum, Failure>(v@),
                Err(e) => intern_in(old(self)@, old(self)@.current_namespace, identifier@, None).1
                    == Err::<Datum, Failure>(e@),
            },
            final(self).depth == old(self).depth,
    {
        let ns = self.current_namespace.clone();
        self.intern_in_namespace(ns.as_str(), identifier, None)
    }

    /// Takes a name out of the current namespace.
    pub fn unintern_var(&mut self, identifier: &str)
        ensures
            final(self)@ == unintern(old(self)@, identifier@),
            final(self).depth == old(self).depth,
    {
        match find_space(&self.namespaces, self.current_namespace.as_str()) {
            Some(k) => {
                assert(spaces(self.namespaces@)[k as int] == self.namespaces@[k as int]@);
                let cleared = self.namespaces[k].without(identifier);
                self.namespaces.set(k, cleared);
                assert(spaces(self.namespaces@) =~= spaces(old(self).namespaces@).update(
                    k as int,
                    cleared@,
                ));
            },
            None => {},
        }
    }

    /// The var of a name in a namespace.
    pub fn resolve_var_in_namespace(&self, identifier: &str, ns_desc: &str) -> (r: EvaluationResult<
        Value,
    >)
        ensures
            match r {
                Ok(v) => resolve_var(self@, identifier@, ns_desc@) == Ok::<Datum, Failure>(v@),
                Err(e) => resolve_var(self@, identifier@, ns_desc@) == Err::<Datum, Failure>(e@),
            },
    {
        match find_space(&self.namespaces, ns_desc) {
            None => Err(
                EvaluationError::Interpreter(
                    InterpreterError::MissingNamespace(String::from_str(ns_desc)),
                ),
            ),
            Some(k) => {
                assert(spaces(self.namespaces@)[k as int] == self.namespaces@[k as int]@);
                match self.namespaces[k].get(identifier) {
                    Some(cell) => Ok(var_of(cell, ns_desc, identifier)),
                    None => Err(
                        EvaluationError::Symbol(
                            SymbolEvaluationError::MissingVar(
                                String::from_str(identifier),
                                String::from_str(ns_desc),
                            ),
                        ),
                    ),
                }
            },
        }
    }

    /// The var of a name in the current namespace.
    pub fn resolve_var_in_current_namespace(&self, identifier: &str) -> (r: EvaluationResult<Value>)
        ensures
            match r {
                Ok(v) => resolve_var(self@, identifier@, self@.current_namespace) == Ok::<Datum, Failure>(v@),
                Err(e) => resolve_var(self@, identifier@, self@.current_namespace) == Err::<Datum, Failure>(e@),
            },
    {
        self.resolve_var_in_namespace(identifier, self.current_namespace.as_str())
    }

    /// What a symbol stands for before any var is read.
    pub fn resolve_symbol_to_var(&self, identifier: &str, ns_opt: &Option<String>) -> (r:
        EvaluationResult<Value>)
        ensures
            match r {
                Ok(v) => resolve_symbol_to_var(self@, identifier@, opt_text(*ns_opt)) == Ok::<Datum, Failure>(v@),
                Err(e) => resolve_symbol_to_var(self@, identifier@, opt_text(*ns_opt)) == Err::<Datum, Failure>(e@),
            },
    {
        match ns_opt {
            Some(ns_desc) => self.resolve_var_in_namespace(identifier, ns_desc.as_str()),
            None => {
                match self.resolve_symbol_in_scopes(identifier) {
                    Some(v) => Ok(v.clone()),
                    None => self.resolve_var_in_current_namespace(identifier),
                }
            },
        }
    }

    /// What a var stands for: its value where it is bound, itself otherwise.
    pub fn deref_value(&self, v: Value) -> (r: Value)
        ensures
            r@ == deref_var(self@, v@),
    {
        match &v {
            Value::Var(var) => {
                match self.var_get(var.cell) {
                    Some(inner) => inner.clone(),
                    None => v,
                }
            },
            _ => v,
        }
    }

    /// The value of a symbol.
    pub fn resolve_symbol(&self, identifier: &str, ns_opt: &Option<String>) -> (r: EvaluationResult<
        Value,
    >)
        ensures
            match r {
                Ok(v) => resolve_symbol(self@, identifier@, opt_text(*ns_opt)) == Ok::<Datum, Failure>(v@),
                Err(e) => resolve_symbol(self@, identifier@, opt_text(*ns_opt)) == Err::<Datum, Failure>(e@),
            },
    {
        match self.resolve_symbol_to_var(identifier, ns_opt) {
            Ok(v) => Ok(self.deref_value(v)),
            Err(e) => Err(e),
        }
    }

    /// Merges a namespace into the interpreter: the namespace is made where
    /// it is missing, and each binding is interned in order, so that a later
    /// binding of a name wins over an earlier one.
    pub fn load_namespace(&mut self, namespace: Namespace)
        ensures
            final(self)@ == intern_all(
                with_space(old(self)@, namespace.name@),
                namespace.name@,
                texts(namespace.names@),
                data(namespace.values@),
                if namespace.names.len() <= namespace.values.len() {
                    namespace.names.len() as nat
                } else {
                    namespace.values.len() as nat
                },
            ),
            final(self).depth == old(self).depth,
    {
        self.add_namespace(namespace.name.as_str());
        let ghost start = self@;
        let count = if namespace.names.len() <= namespace.values.len() {
            namespace.names.len()
        } else {
            namespace.values.len()
        };
        let mut i: usize = 0;
        while i < count
            invariant
                0 <= i <= count,
                count <= namespace.names.len(),
                count <= namespace.values.len(),
                self.depth == old(self).depth,
                self@ == intern_all(
                    start,
                    namespace.name@,
                    texts(namespace.names@),
                    data(namespace.values@),
                    i as nat,
                ),
            decreases count - i,
        {
            proof {
                lemma_data_index(namespace.values@, i as int);
            }
            let _ = self.intern_in_namespace(
                namespace.name.as_str(),
                namespace.names[i].as_str(),
                Some(namespace.values[i].clone()),
            );
            i = i + 1;
        }
    }

    /// Starts an index of symbols and puts the names of all namespaces in
    /// it; from then on every interned name is added.
    pub fn register_symbol_index(&mut self)
        ensures
            final(self)@ == (World {
                symbol_index: indexed_spaces(
                    Some(Seq::empty()),
                    old(self)@.namespaces,
                    old(self)@.namespaces.len(),
                ),
                ..old(self)@
            }),
            final(self).depth == old(self).depth,
    {
        let mut index: Vec<String> = Vec::new();
        assert(texts(index@) =~= Seq::<Seq<char>>::empty());
        let mut k: usize = 0;
        while k < self.namespaces.len()
            invariant
                0 <= k <= self.namespaces.len(),
                *self == *old(self),
                Some(texts(index@)) == indexed_spaces(
                    Some(Seq::empty()),
                    spaces(self.namespaces@),
                    k as nat,
                ),
            decreases self.namespaces.len() - k,
        {
            assert(spaces(self.namespaces@)[k as int] == self.namespaces@[k as int]@);
            let names = &self.namespaces[k].names;
            let ghost before = Some(texts(index@));
            let mut i: usize = 0;
            while i < names.len()
                invariant
                    0 <= i <= names.len(),
                    Some(texts(index@)) == indexed_all(before, texts(names@), i as nat),
                decreases names.len() - i,
            {
                index_name(&mut index, names[i].as_str());
                i = i + 1;
            }
            k = k + 1;
        }
        self.symbol_index = Some(index);
    }

    /// The names of the index of symbols, where one is kept.
    pub fn symbol_index(&self) -> (r: Option<&Vec<String>>)
        ensures
            match r {
                Some(names) => self@.symbol_index == Some(texts(names@)),
                None => self@.symbol_index is None,
            },
    {
        self.symbol_index.as_ref()
    }
}

} // verus!
