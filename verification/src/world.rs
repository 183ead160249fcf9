//! The state of an interpreter as a mathematical value, and what each
//! operation on that state does to it.
use crate::errors::Failure;
use crate::value::Datum;
use vstd::prelude::*;

verus! {

/// A lexical scope: names and, at the same places, their values.
pub struct Frame {
    pub names: Seq<Seq<char>>,
    pub values: Seq<Datum>,
}

/// A namespace: its name, the names of its vars and, at the same places,
/// the cells of those vars.
pub struct Space {
    pub name: Seq<char>,
    pub names: Seq<Seq<char>>,
    pub cells: Seq<usize>,
}

/// What an evaluation stopped for: something that only the host can give.
pub enum Wish {
    /// Nothing: the evaluation ended for another reason.
    Nothing,
    /// The contents of the file at a path.
    File(Seq<char>),
    /// One more line of input.
    Line,
    /// The time.
    Moment,
    /// What a procedure of the host's own gives for some operands.
    Call(usize, Seq<Datum>),
}

/// The state of an interpreter.
pub struct World {
    /// The namespace that unqualified names are interned in.
    pub current_namespace: Seq<char>,
    pub namespaces: Seq<Space>,
    /// The cells of vars; an unbound var holds nothing.
    pub vars: Seq<Option<Datum>>,
    /// The cells of atoms.
    pub atoms: Seq<Datum>,
    /// The stack of lexical scopes, the innermost last.
    pub scopes: Seq<Frame>,
    /// The names that were interned since an index was asked for.
    pub symbol_index: Option<Seq<Seq<char>>>,
    /// What was printed and not yet taken by the host.
    pub output: Seq<char>,
    /// The files that the host made readable, by path.
    pub files: Frame,
    /// The files that were written and not yet taken by the host.
    pub written: Frame,
    /// The lines of input that the host supplied and nothing has read yet.
    pub lines: Seq<Seq<char>>,
    /// Milliseconds since the epoch, as the host last set them.
    pub clock: i64,
    /// Whether the host answers while a form is evaluated: a line or a time
    /// that is not there yet then stops the evaluation.
    pub live: bool,
    /// Whether the input has ended: no line will come after those supplied.
    pub ended: bool,
    /// The times that the host supplied and nothing has read yet.
    pub moments: Seq<i64>,
    /// What the host's own procedures gave, call by call, and nothing has
    /// read yet.
    pub answers: Seq<Datum>,
    /// What the last evaluation that stopped for the host asked for.
    pub wanted: Wish,
}

/// What evaluating leaves: the state after it, and a value or an error.
pub struct Outcome {
    pub world: World,
    pub result: Result<Datum, Failure>,
}

/// Success with the given state.
pub open spec fn ok(w: World, d: Datum) -> Outcome {
    Outcome { world: w, result: Ok(d) }
}

/// Failure with the given state.
pub open spec fn fail(w: World, f: Failure) -> Outcome {
    Outcome { world: w, result: Err(f) }
}

/// The first place at or after `from` where `names` holds `name`.
pub open spec fn place(names: Seq<Seq<char>>, name: Seq<char>, from: int) -> Option<int>
    decreases names.len() - from,
{
    if from < 0 || from >= names.len() {
        None
    } else if names[from] == name {
        Some(from)
    } else {
        place(names, name, from + 1)
    }
}

/// The frame without bindings.
pub open spec fn empty_frame() -> Frame {
    Frame { names: Seq::empty(), values: Seq::empty() }
}

/// The value that a frame binds a name to.
pub open spec fn frame_get(f: Frame, name: Seq<char>) -> Option<Datum> {
    match place(f.names, name, 0) {
        Some(i) => if i < f.values.len() {
            Some(f.values[i])
        } else {
            None
        },
        None => None,
    }
}

/// The frame with a name bound to a value: a binding of the name is
/// replaced where it stands, a new one goes to the end.
pub open spec fn frame_put(f: Frame, name: Seq<char>, value: Datum) -> Frame {
    match place(f.names, name, 0) {
        Some(i) => if i < f.values.len() {
            Frame { names: f.names, values: f.values.update(i, value) }
        } else {
            Frame { names: f.names.push(name), values: f.values.push(value) }
        },
        None => Frame { names: f.names.push(name), values: f.values.push(value) },
    }
}

/// A place that is found lies within the names.
pub proof fn lemma_place_in_range(names: Seq<Seq<char>>, name: Seq<char>, from: int)
    requires
        0 <= from,
    ensures
        match place(names, name, from) {
            Some(i) => from <= i < names.len() && names[i] == name,
            None => true,
        },
    decreases names.len() - from,
{
    if from < names.len() && names[from] != name {
        lemma_place_in_range(names, name, from + 1);
    }
}

/// A frame that a name was put in holds at least one name.
pub proof fn lemma_frame_put_nonempty(f: Frame, name: Seq<char>, value: Datum)
    ensures
        frame_put(f, name, value).names.len() >= 1,
{
    lemma_place_in_range(f.names, name, 0);
}

/// Whether no name of a run occurs twice.
pub open spec fn unique(names: Seq<Seq<char>>) -> bool {
    forall|j: int| 0 <= j < names.len() ==> place(names.take(j), #[trigger] names[j], 0) is None
}

/// Whether a scope is well formed: each name has its value, and no name
/// occurs twice.
pub open spec fn frame_wf(f: Frame) -> bool {
    f.names.len() == f.values.len() && unique(f.names)
}

/// Whether a namespace is well formed: each name has its cell, and no name
/// occurs twice.
pub open spec fn space_wf(sp: Space) -> bool {
    sp.names.len() == sp.cells.len() && unique(sp.names)
}

/// A name that is nowhere among some names is nowhere among them and one
/// more, different, name.
pub proof fn lemma_place_push(names: Seq<Seq<char>>, more: Seq<char>, id: Seq<char>, from: int)
    requires
        0 <= from <= names.len(),
        place(names, id, from) is None,
        more != id,
    ensures
        place(names.push(more), id, from) is None,
    decreases names.len() - from,
{
    if from < names.len() {
        assert(names.push(more)[from] == names[from]);
        lemma_place_push(names, more, id, from + 1);
    } else {
        assert(names.push(more)[from] == more);
        assert(place(names.push(more), id, from + 1) is None);
    }
}

/// A name that is nowhere among some names is nowhere among the first of
/// them.
pub proof fn lemma_place_take(names: Seq<Seq<char>>, id: Seq<char>, from: int, n: int)
    requires
        0 <= from,
        0 <= n <= names.len(),
        place(names, id, from) is None,
    ensures
        place(names.take(n), id, from) is None,
    decreases names.len() - from,
{
    if from < n {
        assert(names.take(n)[from] == names[from]);
        lemma_place_take(names, id, from + 1, n);
    }
}

/// Names with one more name that is not among them are unique if they
/// were.
pub proof fn lemma_unique_push(names: Seq<Seq<char>>, name: Seq<char>)
    requires
        unique(names),
        place(names, name, 0) is None,
    ensures
        unique(names.push(name)),
{
    let after = names.push(name);
    assert forall|j: int| 0 <= j < after.len() implies place(
        after.take(j),
        #[trigger] after[j],
        0,
    ) is None by {
        if j < names.len() {
            assert(after[j] == names[j]);
            assert(after.take(j) =~= names.take(j));
        } else {
            assert(after.take(j) =~= names);
        }
    }
}

/// A name that is put behind names that lack it is found at the end.
pub proof fn lemma_place_pushed(names: Seq<Seq<char>>, name: Seq<char>, from: int)
    requires
        0 <= from <= names.len(),
        place(names, name, from) is None,
    ensures
        place(names.push(name), name, from) == Some(names.len() as int),
    decreases names.len() - from,
{
    if from < names.len() {
        assert(names.push(name)[from] == names[from]);
        lemma_place_pushed(names, name, from + 1);
    } else {
        assert(names.push(name)[from] == name);
    }
}

/// A well formed scope gives for a name the value that it was just bound
/// to.
pub proof fn lemma_frame_put_get(f: Frame, name: Seq<char>, value: Datum)
    requires
        frame_wf(f),
    ensures
        frame_get(frame_put(f, name, value), name) == Some(value),
{
    lemma_place_in_range(f.names, name, 0);
    if place(f.names, name, 0) is None {
        lemma_place_pushed(f.names, name, 0);
    }
}

/// Binding a name keeps a scope well formed.
pub proof fn lemma_frame_put_wf(f: Frame, name: Seq<char>, value: Datum)
    requires
        frame_wf(f),
    ensures
        frame_wf(frame_put(f, name, value)),
{
    lemma_place_in_range(f.names, name, 0);
    if place(f.names, name, 0) is None {
        lemma_unique_push(f.names, name);
    }
}

/// The names that are kept of a well formed namespace are unique, have
/// their cells, and hold no name that the namespace did not hold.
pub proof fn lemma_kept_wf(sp: Space, id: Seq<char>, n: nat)
    requires
        space_wf(sp),
        n <= sp.names.len(),
    ensures
        kept(sp, id, n).0.len() == kept(sp, id, n).1.len(),
        unique(kept(sp, id, n).0),
        place(kept(sp, id, n).0, id, 0) is None,
        forall|x: Seq<char>|
            place(sp.names.take(n as int), x, 0) is None ==> place(
                #[trigger] kept(sp, id, n).0,
                x,
                0,
            ) is None,
    decreases n,
{
    if n > 0 {
        lemma_kept_wf(sp, id, (n - 1) as nat);
        let front = kept(sp, id, (n - 1) as nat);
        let name = sp.names[n - 1];
        if !(name == id || n > sp.cells.len()) {
            assert(place(sp.names.take(n - 1), name, 0) is None);
            lemma_unique_push(front.0, name);
            lemma_place_push(front.0, name, id, 0);
            assert forall|x: Seq<char>| place(sp.names.take(n as int), x, 0) is None implies place(
                #[trigger] kept(sp, id, n).0,
                x,
                0,
            ) is None by {
                lemma_place_in_range(sp.names.take(n as int), x, 0);
                lemma_absent_front(sp.names.take(n as int), x, 0);
                assert(sp.names.take(n as int).take(n - 1) =~= sp.names.take(n - 1));
                assert(sp.names.take(n as int)[n - 1] == name);
                assert(x != name) by {
                    lemma_absent_everywhere(sp.names.take(n as int), x, 0, n - 1);
                }
                lemma_place_push(front.0, name, x, 0);
            }
        } else {
            assert forall|x: Seq<char>| place(sp.names.take(n as int), x, 0) is None implies place(
                #[trigger] kept(sp, id, n).0,
                x,
                0,
            ) is None by {
                lemma_absent_front(sp.names.take(n as int), x, 0);
                assert(sp.names.take(n as int).take(n - 1) =~= sp.names.take(n - 1));
            }
        }
    }
}

/// A name that is nowhere among some names is nowhere among all but the
/// last of them.
pub proof fn lemma_absent_front(names: Seq<Seq<char>>, x: Seq<char>, from: int)
    requires
        0 <= from,
        names.len() > 0,
        place(names, x, from) is None,
    ensures
        place(names.take(names.len() - 1), x, from) is None,
{
    lemma_place_take(names, x, from, names.len() - 1);
}

/// A name that is nowhere among some names is at none of their places.
pub proof fn lemma_absent_everywhere(names: Seq<Seq<char>>, x: Seq<char>, from: int, k: int)
    requires
        0 <= from <= k < names.len(),
        place(names, x, from) is None,
    ensures
        names[k] != x,
    decreases k - from,
{
    if from < k {
        lemma_absent_everywhere(names, x, from + 1, k);
    }
}

/// Taking a name out keeps a namespace well formed, and the namespace does
/// not hold the name afterwards.
pub proof fn lemma_space_without_wf(sp: Space, id: Seq<char>)
    requires
        space_wf(sp),
    ensures
        space_wf(space_without(sp, id)),
        place(space_without(sp, id).names, id, 0) is None,
{
    lemma_kept_wf(sp, id, sp.names.len());
}

/// The value that the innermost scope binding a name gives it.
pub open spec fn scopes_get(scopes: Seq<Frame>, name: Seq<char>) -> Option<Datum>
    decreases scopes.len(),
{
    if scopes.len() == 0 {
        None
    } else {
        match frame_get(scopes.last(), name) {
            Some(v) => Some(v),
            None => scopes_get(scopes.drop_last(), name),
        }
    }
}

/// The first place at or after `from` of the namespace called `name`.
pub open spec fn space_place(spaces: Seq<Space>, name: Seq<char>, from: int) -> Option<int>
    decreases spaces.len() - from,
{
    if from < 0 || from >= spaces.len() {
        None
    } else if spaces[from].name == name {
        Some(from)
    } else {
        space_place(spaces, name, from + 1)
    }
}

/// The cell that a namespace binds a name to.
pub open spec fn space_get(sp: Space, id: Seq<char>) -> Option<usize> {
    match place(sp.names, id, 0) {
        Some(i) => if i < sp.cells.len() {
            Some(sp.cells[i])
        } else {
            None
        },
        None => None,
    }
}

/// The bindings among the first `n` of a namespace whose name is not `id`.
pub open spec fn kept(sp: Space, id: Seq<char>, n: nat) -> (Seq<Seq<char>>, Seq<usize>)
    decreases n,
{
    if n == 0 || n > sp.names.len() {
        (Seq::empty(), Seq::empty())
    } else {
        let front = kept(sp, id, (n - 1) as nat);
        if sp.names[n - 1] == id || n > sp.cells.len() {
            front
        } else {
            (front.0.push(sp.names[n - 1]), front.1.push(sp.cells[n - 1]))
        }
    }
}

/// The namespace without any binding of a name.
pub open spec fn space_without(sp: Space, id: Seq<char>) -> Space {
    let rest = kept(sp, id, sp.names.len());
    Space { name: sp.name, names: rest.0, cells: rest.1 }
}

/// What a var holds: nothing for an unbound var or a cell that does not
/// exist.
pub open spec fn var_value(w: World, cell: usize) -> Option<Datum> {
    if cell < w.vars.len() {
        w.vars[cell as int]
    } else {
        None
    }
}

/// What an atom holds; `nil` for a cell that does not exist.
pub open spec fn atom_value(w: World, cell: usize) -> Datum {
    if cell < w.atoms.len() {
        w.atoms[cell as int]
    } else {
        Datum::Nil
    }
}

/// The index with one more name, where an index is kept.
pub open spec fn indexed(index: Option<Seq<Seq<char>>>, id: Seq<char>) -> Option<Seq<Seq<char>>> {
    match index {
        Some(names) => if place(names, id, 0) is Some {
            Some(names)
        } else {
            Some(names.push(id))
        },
        None => None,
    }
}

/// The state with one more, empty, scope.
pub open spec fn enter_scope(w: World) -> World {
    World { scopes: w.scopes.push(empty_frame()), ..w }
}

/// The state without its innermost scope.
pub open spec fn leave_scope(w: World) -> World {
    if w.scopes.len() == 0 {
        w
    } else {
        World { scopes: w.scopes.drop_last(), ..w }
    }
}

/// The state with a name bound in the innermost scope; where there is no
/// scope, one is made.
pub open spec fn bind(w: World, name: Seq<char>, value: Datum) -> World {
    if w.scopes.len() == 0 {
        World { scopes: seq![frame_put(empty_frame(), name, value)], ..w }
    } else {
        World {
            scopes: w.scopes.update(
                w.scopes.len() - 1,
                frame_put(w.scopes.last(), name, value),
            ),
            ..w
        }
    }
}

/// The state with a var cell holding `content`, and the var: in the
/// namespace `ns` the name `id` keeps its cell where it has one and gets a
/// new cell otherwise. Nothing changes where the namespace is missing.
pub open spec fn intern_in(w: World, ns: Seq<char>, id: Seq<char>, content: Option<Datum>) -> (
    World,
    Result<Datum, Failure>,
) {
    match space_place(w.namespaces, ns, 0) {
        None => (w, Err(Failure::MissingNamespace(ns))),
        Some(k) => {
            let sp = w.namespaces[k];
            match space_get(sp, id) {
                Some(cell) => if cell < w.vars.len() {
                    (
                        World {
                            vars: w.vars.update(cell as int, content),
                            symbol_index: indexed(w.symbol_index, id),
                            ..w
                        },
                        Ok(Datum::Var(cell, ns, id)),
                    )
                } else {
                    intern_fresh(w, k, ns, id, content)
                },
                None => intern_fresh(w, k, ns, id, content),
            }
        },
    }
}

/// The state with a new var cell holding `content`, bound to `id` in the
/// namespace at place `k`.
pub open spec fn intern_fresh(
    w: World,
    k: int,
    ns: Seq<char>,
    id: Seq<char>,
    content: Option<Datum>,
) -> (World, Result<Datum, Failure>) {
    let sp = w.namespaces[k];
    let cell = w.vars.len() as usize;
    let cleared = space_without(sp, id);
    (
        World {
            vars: w.vars.push(content),
            namespaces: w.namespaces.update(
                k,
                Space {
                    name: sp.name,
                    names: cleared.names.push(id),
                    cells: cleared.cells.push(cell),
                },
            ),
            symbol_index: indexed(w.symbol_index, id),
            ..w
        },
        Ok(Datum::Var(cell, ns, id)),
    )
}

/// The state without the name `id` in the current namespace.
pub open spec fn unintern(w: World, id: Seq<char>) -> World {
    match space_place(w.namespaces, w.current_namespace, 0) {
        None => w,
        Some(k) => World {
            namespaces: w.namespaces.update(
                k,
                space_without(w.namespaces[k], id),
            ),
            ..w
        },
    }
}

/// The var that a namespace holds under a name.
pub open spec fn resolve_var(w: World, id: Seq<char>, ns: Seq<char>) -> Result<Datum, Failure> {
    match space_place(w.namespaces, ns, 0) {
        None => Err(Failure::MissingNamespace(ns)),
        Some(k) => match space_get(w.namespaces[k], id) {
            Some(cell) => Ok(Datum::Var(cell, ns, id)),
            None => Err(Failure::MissingVar(id, ns)),
        },
    }
}

/// What a symbol stands for before any var is read: the var of the named
/// namespace where the symbol names one; else what the innermost scope that
/// binds the identifier gives it; else the var of the current namespace.
pub open spec fn resolve_symbol_to_var(w: World, id: Seq<char>, ns: Option<Seq<char>>) -> Result<
    Datum,
    Failure,
> {
    match ns {
        Some(n) => resolve_var(w, id, n),
        None => match scopes_get(w.scopes, id) {
            Some(v) => Ok(v),
            None => resolve_var(w, id, w.current_namespace),
        },
    }
}

/// What a var stands for: its value where it is bound, itself otherwise;
/// any other value stands for itself.
pub open spec fn deref_var(w: World, d: Datum) -> Datum {
    match d {
        Datum::Var(cell, _, _) => match var_value(w, cell) {
            Some(v) => v,
            None => d,
        },
        other => other,
    }
}

/// The value of a symbol.
pub open spec fn resolve_symbol(w: World, id: Seq<char>, ns: Option<Seq<char>>) -> Result<
    Datum,
    Failure,
> {
    match resolve_symbol_to_var(w, id, ns) {
        Ok(d) => Ok(deref_var(w, d)),
        Err(e) => Err(e),
    }
}

/// The state with a var cell holding a value; nothing changes for a cell
/// that does not exist.
pub open spec fn var_update(w: World, cell: usize, content: Option<Datum>) -> World {
    if cell < w.vars.len() {
        World { vars: w.vars.update(cell as int, content), ..w }
    } else {
        w
    }
}

/// The state with one more var cell, bound to no name.
pub open spec fn var_fresh(w: World, content: Option<Datum>) -> World {
    World { vars: w.vars.push(content), ..w }
}

/// The state with an atom cell holding a value; nothing changes for a cell
/// that does not exist.
pub open spec fn atom_update(w: World, cell: usize, value: Datum) -> World {
    if cell < w.atoms.len() {
        World { atoms: w.atoms.update(cell as int, value), ..w }
    } else {
        w
    }
}

/// The state with one more atom cell.
pub open spec fn atom_fresh(w: World, value: Datum) -> World {
    World { atoms: w.atoms.push(value), ..w }
}

/// The state with more printed text.
pub open spec fn emit(w: World, text: Seq<char>) -> World {
    World { output: w.output + text, ..w }
}

/// The state with the given stack of scopes.
pub open spec fn with_scopes(w: World, scopes: Seq<Frame>) -> World {
    World { scopes: scopes, ..w }
}

} // verus!
