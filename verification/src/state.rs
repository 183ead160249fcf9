//! The interpreter's state: namespaces, cells of vars and atoms, lexical
//! scopes, and what passes between the interpreter and its host.
//!
//! Every operation says what it does to the state as a mathematical value
//! (see `World`); none of them can fail for want of an invariant.
use crate::collections::{data, lemma_data_index, lemma_data_push, lemma_data_update};

use crate::text::{same_text, push_str, string_of};
use crate::value::{lemma_texts_push, texts, Datum, Value, VarImpl};
use crate::world::{Wish, 
    atom_fresh, atom_update, atom_value, bind, emit, empty_frame, enter_scope, frame_get,
    frame_put, leave_scope, place, kept, scopes_get, space_get, space_place, space_without,
    var_fresh, var_update, var_value, Frame, Space, World,
};
use vstd::prelude::*;

verus! {

/// A lexical scope.
pub struct Scope {
    pub names: Vec<String>,
    pub values: Vec<Value>,
}

impl View for Scope {
    type V = Frame;

    open spec fn view(&self) -> Frame {
        Frame { names: texts(self.names@), values: data(self.values@) }
    }
}

/// The names and cells of one namespace.
pub struct Cells {
    pub name: String,
    pub names: Vec<String>,
    pub cells: Vec<usize>,
}

impl View for Cells {
    type V = Space;

    open spec fn view(&self) -> Space {
        Space { name: self.name@, names: texts(self.names@), cells: self.cells@ }
    }
}

/// The views of a stack of scopes.
pub open spec fn frames(scopes: Seq<Scope>) -> Seq<Frame> {
    scopes.map_values(|s: Scope| s@)
}

/// The views of a run of namespaces.
pub open spec fn spaces(namespaces: Seq<Cells>) -> Seq<Space> {
    namespaces.map_values(|c: Cells| c@)
}

/// The view of what a var cell holds.
pub open spec fn opt_datum(content: Option<Value>) -> Option<Datum> {
    match content {
        Some(v) => Some(v@),
        None => None,
    }
}

/// The views of a run of var cells.
pub open spec fn contents(vars: Seq<Option<Value>>) -> Seq<Option<Datum>> {
    vars.map_values(|c: Option<Value>| opt_datum(c))
}

/// The view of an optional run of names.
pub open spec fn opt_texts(index: Option<Vec<String>>) -> Option<Seq<Seq<char>>> {
    match index {
        Some(names) => Some(texts(names@)),
        None => None,
    }
}

/// The first place where `names` holds `name`.
pub fn find_name(names: &Vec<String>, name: &str) -> (r: Option<usize>)
    ensures
        match r {
            Some(i) => place(texts(names@), name@, 0) == Some(i as int) && i < names.len(),
            None => place(texts(names@), name@, 0) is None,
        },
{
    let mut i: usize = 0;
    while i < names.len()
        invariant
            0 <= i <= names.len(),
            place(texts(names@), name@, 0) == place(texts(names@), name@, i as int),
        decreases names.len() - i,
    {
        if same_text(names[i].as_str(), name) {
            return Some(i);
        }
        i = i + 1;
    }
    None
}

impl Scope {
    /// Whether the scope is well formed: each name has its value, and no
    /// name occurs twice.
    pub open spec fn wf(&self) -> bool {
        crate::world::frame_wf(self@)
    }

    /// The scope without bindings.
    pub fn new() -> (s: Scope)
        ensures
            s@ == empty_frame(),
            s.wf(),
    {
        let s = Scope { names: Vec::new(), values: Vec::new() };
        assert(s@.names =~= Seq::<Seq<char>>::empty());
        assert(s@.values =~= Seq::<Datum>::empty());
        s
    }

    /// The value bound to a name.
    pub fn get(&self, name: &str) -> (r: Option<&Value>)
        ensures
            match r {
                Some(v) => frame_get(self@, name@) == Some(v@),
                None => frame_get(self@, name@) is None,
            },
    {
        match find_name(&self.names, name) {
            Some(i) => {
                if i < self.values.len() {
                    Some(&self.values[i])
                } else {
                    None
                }
            },
            None => None,
        }
    }

    /// Binds a name to a value.
    pub fn put(&mut self, name: &str, value: Value)
        ensures
            final(self)@ == frame_put(old(self)@, name@, value@),
            old(self).wf() ==> final(self).wf(),
    {
        proof {
            if self.wf() {
                crate::world::lemma_frame_put_wf(self@, name@, value@);
            }
        }
        let found = find_name(&self.names, name);
        let ghost names = self.names@;
        let ghost values = self.values@;
        match found {
            Some(i) => {
                if i < self.values.len() {
                    self.values.set(i, value);
                    proof {
                        lemma_data_update(values, i as int, value);
                    }
                    return ;
                }
            },
            None => {},
        }
        let owned = String::from_str(name);
        proof {
            lemma_texts_push(names, owned);
            lemma_data_push(values, value);
        }
        self.names.push(owned);
        self.values.push(value);
    }

    /// A copy of the scope.
    pub fn duplicate(&self) -> (r: Scope)
        ensures
            r@ == self@,
    {
        let names = crate::value::clone_texts(&self.names);
        let mut values: Vec<Value> = Vec::new();
        let mut i: usize = 0;
        assert(data(values@) =~= data(self.values@.take(0)));
        while i < self.values.len()
            invariant
                0 <= i <= self.values.len(),
                data(values@) == data(self.values@.take(i as int)),
            decreases self.values.len() - i,
        {
            let v = self.values[i].clone();
            proof {
                lemma_data_push(values@, v);
                lemma_data_push(self.values@.take(i as int), self.values@[i as int]);
                assert(self.values@.take(i + 1) =~= self.values@.take(i as int).push(
                    self.values@[i as int],
                ));
            }
            values.push(v);
            i = i + 1;
        }
        assert(self.values@.take(self.values.len() as int) =~= self.values@);
        Scope { names, values }
    }
}

/// The first place of the namespace called `name`.
pub fn find_space(namespaces: &Vec<Cells>, name: &str) -> (r: Option<usize>)
    ensures
        match r {
            Some(k) => space_place(spaces(namespaces@), name@, 0) == Some(k as int) && k
                < namespaces.len(),
            None => space_place(spaces(namespaces@), name@, 0) is None,
        },
{
    let mut k: usize = 0;
    while k < namespaces.len()
        invariant
            0 <= k <= namespaces.len(),
            space_place(spaces(namespaces@), name@, 0) == space_place(
                spaces(namespaces@),
                name@,
                k as int,
            ),
        decreases namespaces.len() - k,
    {
        if same_text(namespaces[k].name.as_str(), name) {
            return Some(k);
        }
        k = k + 1;
    }
    None
}

impl Cells {
    /// Whether the namespace is well formed: each name has its cell, and
    /// no name occurs twice.
    pub open spec fn wf(&self) -> bool {
        crate::world::space_wf(self@)
    }

    /// The cell bound to a name.
    pub fn get(&self, id: &str) -> (r: Option<usize>)
        ensures
            r == space_get(self@, id@),
    {
        match find_name(&self.names, id) {
            Some(i) => {
                if i < self.cells.len() {
                    Some(self.cells[i])
                } else {
                    None
                }
            },
            None => None,
        }
    }

    /// The namespace without any binding of a name.
    pub fn without(&self, id: &str) -> (r: Cells)
        ensures
            r@ == space_without(self@, id@),
            self.wf() ==> r.wf() && place(r@.names, id@, 0) is None,
    {
        proof {
            if self.wf() {
                crate::world::lemma_space_without_wf(self@, id@);
            }
        }
        let mut names: Vec<String> = Vec::new();
        let mut cells: Vec<usize> = Vec::new();
        let mut i: usize = 0;
        let ghost me = self@;
        assert(texts(names@) =~= Seq::<Seq<char>>::empty());
        while i < self.names.len()
            invariant
                0 <= i <= self.names.len(),
                me == self@,
                (texts(names@), cells@) == kept(me, id@, i as nat),
            decreases self.names.len() - i,
        {
            if !(same_text(self.names[i].as_str(), id) || i >= self.cells.len()) {
                let owned = self.names[i].clone();
                proof {
                    lemma_texts_push(names@, owned);
                }
                names.push(owned);
                cells.push(self.cells[i]);
            }
            i = i + 1;
        }
        Cells { name: self.name.clone(), names, cells }
    }
}

/// The var that a cell, a namespace and an identifier make.
pub fn var_of(cell: usize, ns: &str, id: &str) -> (r: Value)
    ensures
        r@ == Datum::Var(cell, ns@, id@),
{
    Value::Var(
        VarImpl { cell, namespace: String::from_str(ns), identifier: String::from_str(id) },
    )
}

/// What an evaluation stopped for: something that only the host can give.
pub enum Want {
    /// Nothing: the evaluation ended for another reason.
    Nothing,
    /// The contents of the file at a path.
    File(String),
    /// One more line of input.
    Line,
    /// The time.
    Moment,
    /// What a procedure of the host's own gives for some operands.
    Call(usize, Vec<Value>),
}

impl View for Want {
    type V = Wish;

    open spec fn view(&self) -> Wish {
        match self {
            Want::Nothing => Wish::Nothing,
            Want::File(path) => Wish::File(path@),
            Want::Line => Wish::Line,
            Want::Moment => Wish::Moment,
            Want::Call(id, args) => Wish::Call(*id, data(args@)),
        }
    }
}

/// An interpreter: its namespaces, the cells of its vars and atoms, its
/// stack of lexical scopes, and what passes between it and its host.
///
/// The interpreter does no input or output itself. What it prints goes to
/// `output`, what it writes to `written`; it reads the files in `files`,
/// the lines in `lines` and the times in `moments`. A host fills and
/// empties these between evaluations. Where an evaluation needs a file
/// that is not in `files`, it fails and says in `wanted` which; with `live`
/// set it does the same for a line and for the time, and it always does
/// for a call of a procedure of the host's own whose answer is not in
/// `answers`. Evaluation is a
/// function of the form and the state, so a host that keeps the state from
/// before the form can supply what was wanted and evaluate the form again:
/// the evaluation then takes the same course and goes on from where it
/// stopped.
pub struct Interpreter {
    pub current_namespace: String,
    pub namespaces: Vec<Cells>,
    pub vars: Vec<Option<Value>>,
    pub atoms: Vec<Value>,
    pub scopes: Vec<Scope>,
    pub symbol_index: Option<Vec<String>>,
    pub output: Vec<char>,
    pub files: Scope,
    pub written: Scope,
    pub lines: Vec<String>,
    pub clock: i64,
    pub live: bool,
    pub ended: bool,
    pub moments: Vec<i64>,
    pub answers: Vec<Value>,
    pub wanted: Want,
    /// How many more levels evaluation may nest.
    pub depth: usize,
}

impl View for Interpreter {
    type V = World;

    open spec fn view(&self) -> World {
        World {
            current_namespace: self.current_namespace@,
            namespaces: spaces(self.namespaces@),
            vars: contents(self.vars@),
            atoms: data(self.atoms@),
            scopes: frames(self.scopes@),
            symbol_index: opt_texts(self.symbol_index),
            output: self.output@,
            files: self.files@,
            written: self.written@,
            lines: texts(self.lines@),
            clock: self.clock,
            live: self.live,
            ended: self.ended,
            moments: self.moments@,
            answers: data(self.answers@),
            wanted: self.wanted@,
        }
    }
}

/// The views of a stack with one more scope.
pub proof fn lemma_frames_push(scopes: Seq<Scope>, s: Scope)
    ensures
        frames(scopes.push(s)) == frames(scopes).push(s@),
{
    assert(frames(scopes.push(s)) =~= frames(scopes).push(s@));
}

/// The views of a run with one more var cell.
pub proof fn lemma_contents_push(vars: Seq<Option<Value>>, c: Option<Value>)
    ensures
        contents(vars.push(c)) == contents(vars).push(opt_datum(c)),
{
    assert(contents(vars.push(c)) =~= contents(vars).push(opt_datum(c)));
}

/// The views of a run with one var cell replaced.
pub proof fn lemma_contents_update(vars: Seq<Option<Value>>, i: int, c: Option<Value>)
    requires
        0 <= i < vars.len(),
    ensures
        contents(vars.update(i, c)) == contents(vars).update(i, opt_datum(c)),
{
    assert(contents(vars.update(i, c)) =~= contents(vars).update(i, opt_datum(c)));
}

impl Interpreter {
    /// Whether the interpreter is well formed: each of its scopes, of its
    /// namespaces and of its two runs of files gives each name one value.
    /// Building an interpreter establishes this, and evaluating keeps it.
    pub open spec fn wf(&self) -> bool {
        crate::tidy::tidy(self@)
    }

    /// An interpreter with nothing in it: no namespace, no scope, no cell.
    pub fn bare(current_namespace: &str, depth: usize) -> (r: Interpreter)
        ensures
            r@ == (World {
                current_namespace: current_namespace@,
                namespaces: Seq::empty(),
                vars: Seq::empty(),
                atoms: Seq::empty(),
                scopes: Seq::empty(),
                symbol_index: None,
                output: Seq::empty(),
                files: empty_frame(),
                written: empty_frame(),
                lines: Seq::empty(),
                clock: 0,
                live: false,
                ended: false,
                moments: Seq::empty(),
                answers: Seq::empty(),
                wanted: Wish::Nothing,
            }),
            r.depth == depth,
    {
        let r = Interpreter {
            current_namespace: String::from_str(current_namespace),
            namespaces: Vec::new(),
            vars: Vec::new(),
            atoms: Vec::new(),
            scopes: Vec::new(),
            symbol_index: None,
            output: Vec::new(),
            files: Scope::new(),
            written: Scope::new(),
            lines: Vec::new(),
            clock: 0,
            live: false,
            ended: false,
            moments: Vec::new(),
            answers: Vec::new(),
            wanted: Want::Nothing,
            depth,
        };
        assert(r@.namespaces =~= Seq::<Space>::empty());
        assert(r@.vars =~= Seq::<Option<Datum>>::empty());
        assert(r@.atoms =~= Seq::<Datum>::empty());
        assert(r@.scopes =~= Seq::<Frame>::empty());
        assert(r@.lines =~= Seq::<Seq<char>>::empty());
        assert(r@.output =~= Seq::<char>::empty());
        r
    }

    /// The name of the namespace that unqualified names are interned in.
    pub fn current_namespace(&self) -> (r: &str)
        ensures
            r@ == self@.current_namespace,
    {
        self.current_namespace.as_str()
    }

    /// Opens a new innermost scope.
    pub fn enter_scope(&mut self)
        ensures
            final(self)@ == enter_scope(old(self)@),
            final(self).depth == old(self).depth,
    {
        let s = Scope::new();
        proof {
            lemma_frames_push(self.scopes@, s);
        }
        self.scopes.push(s);
    }

    /// Exits the current lexical scope; without a scope nothing happens.
    pub fn leave_scope(&mut self)
        ensures
            final(self)@ == leave_scope(old(self)@),
            final(self).depth == old(self).depth,
    {
        if self.scopes.len() > 0 {
            self.scopes.pop();
            assert(frames(self.scopes@) =~= frames(old(self).scopes@).drop_last());
        }
    }

    /// Binds a name in the innermost scope.
    pub fn insert_value_in_current_scope(&mut self, identifier: &str, value: Value)
        ensures
            final(self)@ == bind(old(self)@, identifier@, value@),
            final(self).depth == old(self).depth,
    {
        if self.scopes.len() == 0 {
            let mut s = Scope::new();
            s.put(identifier, value);
            self.scopes.push(s);
            assert(frames(self.scopes@) =~= seq![frame_put(empty_frame(), identifier@, value@)]);
        } else {
            let mut s = self.scopes.pop().unwrap();
            let ghost rest = self.scopes@;
            s.put(identifier, value);
            self.scopes.push(s);
            assert(frames(self.scopes@) =~= frames(old(self).scopes@).update(
                old(self).scopes@.len() - 1,
                frame_put(old(self).scopes@.last()@, identifier@, value@),
            ));
        }
    }

    /// The value that the innermost scope binding a name gives it.
    pub fn resolve_symbol_in_scopes(&self, identifier: &str) -> (r: Option<&Value>)
        ensures
            match r {
                Some(v) => scopes_get(self@.scopes, identifier@) == Some(v@),
                None => scopes_get(self@.scopes, identifier@) is None,
            },
    {
        let mut n: usize = self.scopes.len();
        assert(frames(self.scopes@).take(n as int) =~= frames(self.scopes@));
        while n > 0
            invariant
                0 <= n <= self.scopes.len(),
                scopes_get(frames(self.scopes@), identifier@) == scopes_get(
                    frames(self.scopes@).take(n as int),
                    identifier@,
                ),
            decreases n,
        {
            let ghost stack = frames(self.scopes@).take(n as int);
            assert(stack.last() == self.scopes@[n - 1]@);
            assert(stack.drop_last() =~= frames(self.scopes@).take(n - 1));
            match self.scopes[n - 1].get(identifier) {
                Some(v) => {
                    return Some(v);
                },
                None => {},
            }
            n = n - 1;
        }
        assert(frames(self.scopes@).take(0).len() == 0);
        None
    }

    /// What a var holds: nothing for an unbound var.
    pub fn var_get(&self, cell: usize) -> (r: Option<&Value>)
        ensures
            match r {
                Some(v) => var_value(self@, cell) == Some(v@),
                None => var_value(self@, cell) is None,
            },
    {
        if cell < self.vars.len() {
            self.vars[cell].as_ref()
        } else {
            None
        }
    }

    /// Puts a value, or nothing, into a var cell.
    pub fn var_set(&mut self, cell: usize, content: Option<Value>)
        ensures
            final(self)@ == var_update(old(self)@, cell, opt_datum(content)),
            final(self).depth == old(self).depth,
    {
        if cell < self.vars.len() {
            proof {
                lemma_contents_update(self.vars@, cell as int, content);
            }
            self.vars.set(cell, content);
        }
    }

    /// Makes a var cell that no namespace names.
    pub fn var_new(&mut self, content: Option<Value>) -> (cell: usize)
        ensures
            final(self)@ == var_fresh(old(self)@, opt_datum(content)),
            cell == old(self)@.vars.len(),
            final(self).depth == old(self).depth,
    {
        let cell = self.vars.len();
        proof {
            lemma_contents_push(self.vars@, content);
        }
        self.vars.push(content);
        cell
    }

    /// What an atom holds.
    pub fn atom_get(&self, cell: usize) -> (r: Value)
        ensures
            r@ == atom_value(self@, cell),
    {
        if cell < self.atoms.len() {
            proof {
                lemma_data_index(self.atoms@, cell as int);
            }
            self.atoms[cell].clone()
        } else {
            Value::Nil
        }
    }

    /// Puts a value into an atom.
    pub fn atom_set(&mut self, cell: usize, value: Value)
        ensures
            final(self)@ == atom_update(old(self)@, cell, value@),
            final(self).depth == old(self).depth,
    {
        if cell < self.atoms.len() {
            proof {
                lemma_data_update(self.atoms@, cell as int, value);
            }
            self.atoms.set(cell, value);
        }
    }

    /// Makes an atom that holds a value.
    pub fn atom_new(&mut self, value: Value) -> (cell: usize)
        ensures
            final(self)@ == atom_fresh(old(self)@, value@),
            cell == old(self)@.atoms.len(),
            final(self).depth == old(self).depth,
    {
        let cell = self.atoms.len();
        proof {
            lemma_data_push(self.atoms@, value);
        }
        self.atoms.push(value);
        cell
    }

    /// Adds text to what was printed.
    pub fn emit(&mut self, text: &str)
        ensures
            final(self)@ == emit(old(self)@, text@),
            final(self).depth == old(self).depth,
    {
        push_str(&mut self.output, text);
    }

    /// Hands what was printed to the host, and forgets it.
    pub fn take_output(&mut self) -> (text: String)
        ensures
            text@ == old(self)@.output,
            final(self)@ == (World { output: Seq::empty(), ..old(self)@ }),
            final(self).depth == old(self).depth,
    {
        let text = string_of(&self.output);
        self.output = Vec::new();
        assert(self.output@ =~= Seq::<char>::empty());
        text
    }
}

} // verus!
