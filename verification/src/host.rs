//! The host's side of an interpreter. The interpreter does no input or
//! output: a host keeps a copy of the state from before a form, evaluates
//! the form, and where the evaluation stopped for something that only the
//! host can give, supplies it to the copy and evaluates the form again.
//! Evaluation is a function of the form and the state, so it takes the same
//! course and goes on from where it stopped.
use crate::collections::data;
use crate::state::{contents, frames, opt_datum, spaces, Cells, Interpreter, Scope, Want};
use crate::errors::{EvaluationError, EvaluationResult};
use crate::interpreter::leaves;
use crate::semantics::evaluate;
use crate::value::{clone_texts, Datum, Primitive, Value};
use crate::world::{frame_put, Wish, World};
use vstd::prelude::*;

verus! {

/// A copy of a run of characters.
pub fn copy_chars(xs: &Vec<char>) -> (r: Vec<char>)
    ensures
        r@ == xs@,
{
    let mut out: Vec<char> = Vec::new();
    let mut i: usize = 0;
    while i < xs.len()
        invariant
            0 <= i <= xs.len(),
            out@ == xs@.take(i as int),
        decreases xs.len() - i,
    {
        out.push(xs[i]);
        assert(xs@.take(i + 1) =~= xs@.take(i as int).push(xs@[i as int]));
        i = i + 1;
    }
    assert(xs@.take(xs.len() as int) =~= xs@);
    out
}

/// A copy of a run of times.
pub fn copy_moments(xs: &Vec<i64>) -> (r: Vec<i64>)
    ensures
        r@ == xs@,
{
    let mut out: Vec<i64> = Vec::new();
    let mut i: usize = 0;
    while i < xs.len()
        invariant
            0 <= i <= xs.len(),
            out@ == xs@.take(i as int),
        decreases xs.len() - i,
    {
        out.push(xs[i]);
        assert(xs@.take(i + 1) =~= xs@.take(i as int).push(xs@[i as int]));
        i = i + 1;
    }
    assert(xs@.take(xs.len() as int) =~= xs@);
    out
}

/// A copy of a run of cell numbers.
pub fn copy_cells(xs: &Vec<usize>) -> (r: Vec<usize>)
    ensures
        r@ == xs@,
{
    let mut out: Vec<usize> = Vec::new();
    let mut i: usize = 0;
    while i < xs.len()
        invariant
            0 <= i <= xs.len(),
            out@ == xs@.take(i as int),
        decreases xs.len() - i,
    {
        out.push(xs[i]);
        assert(xs@.take(i + 1) =~= xs@.take(i as int).push(xs@[i as int]));
        i = i + 1;
    }
    assert(xs@.take(xs.len() as int) =~= xs@);
    out
}

/// A copy of a run of values.
pub fn copy_values(xs: &Vec<Value>) -> (r: Vec<Value>)
    ensures
        data(r@) == data(xs@),
{
    let mut out: Vec<Value> = Vec::new();
    let mut i: usize = 0;
    while i < xs.len()
        invariant
            0 <= i <= xs.len(),
            out@.len() == i,
            forall|k: int| 0 <= k < i ==> (#[trigger] out@[k])@ == xs@[k]@,
        decreases xs.len() - i,
    {
        let v = xs[i].clone();
        out.push(v);
        i = i + 1;
    }
    assert(data(out@) =~= data(xs@));
    out
}

/// A copy of the cells of vars.
pub fn copy_vars(xs: &Vec<Option<Value>>) -> (r: Vec<Option<Value>>)
    ensures
        contents(r@) == contents(xs@),
{
    let mut out: Vec<Option<Value>> = Vec::new();
    let mut i: usize = 0;
    while i < xs.len()
        invariant
            0 <= i <= xs.len(),
            out@.len() == i,
            forall|k: int| 0 <= k < i ==> opt_datum(#[trigger] out@[k]) == opt_datum(xs@[k]),
        decreases xs.len() - i,
    {
        let c = match &xs[i] {
            Some(v) => Some(v.clone()),
            None => None,
        };
        out.push(c);
        i = i + 1;
    }
    assert(contents(out@) =~= contents(xs@));
    out
}

/// A copy of a stack of scopes.
pub fn copy_scopes(xs: &Vec<Scope>) -> (r: Vec<Scope>)
    ensures
        frames(r@) == frames(xs@),
{
    let mut out: Vec<Scope> = Vec::new();
    let mut i: usize = 0;
    while i < xs.len()
        invariant
            0 <= i <= xs.len(),
            out@.len() == i,
            forall|k: int| 0 <= k < i ==> (#[trigger] out@[k])@ == xs@[k]@,
        decreases xs.len() - i,
    {
        let s = xs[i].duplicate();
        out.push(s);
        i = i + 1;
    }
    assert(frames(out@) =~= frames(xs@));
    out
}

/// A copy of a run of namespaces.
pub fn copy_namespaces(xs: &Vec<Cells>) -> (r: Vec<Cells>)
    ensures
        spaces(r@) == spaces(xs@),
{
    let mut out: Vec<Cells> = Vec::new();
    let mut i: usize = 0;
    while i < xs.len()
        invariant
            0 <= i <= xs.len(),
            out@.len() == i,
            forall|k: int| 0 <= k < i ==> (#[trigger] out@[k])@ == xs@[k]@,
        decreases xs.len() - i,
    {
        let c = Cells {
            name: xs[i].name.clone(),
            names: clone_texts(&xs[i].names),
            cells: copy_cells(&xs[i].cells),
        };
        out.push(c);
        i = i + 1;
    }
    assert(spaces(out@) =~= spaces(xs@));
    out
}

/// The state with the contents of a file made readable.
pub open spec fn with_file(w: World, path: Seq<char>, contents: Seq<char>) -> World {
    World { files: frame_put(w.files, path, Datum::String(contents)), wanted: Wish::Nothing, ..w }
}

/// The state with one more line of input.
pub open spec fn with_line(w: World, line: Seq<char>) -> World {
    World { lines: w.lines.push(line), wanted: Wish::Nothing, ..w }
}

/// The state with one more answer of a procedure of the host's own.
pub open spec fn with_answer(w: World, answer: Datum) -> World {
    World { answers: w.answers.push(answer), wanted: Wish::Nothing, ..w }
}

/// The state with one more time.
pub open spec fn with_moment(w: World, moment: i64) -> World {
    World { moments: w.moments.push(moment), wanted: Wish::Nothing, ..w }
}

/// What an attempt to evaluate a form came to.
pub enum Attempt {
    /// The evaluation ended, with a value or with an error.
    Ended(EvaluationResult<Value>),
    /// The evaluation stopped for something that only the host can give,
    /// with the error that a host which cannot give it reports.
    Stopped(Want, EvaluationError),
}

/// A copy of what is wanted.
pub fn copy_want(want: &Want) -> (r: Want)
    ensures
        r@ == want@,
{
    match want {
        Want::Nothing => Want::Nothing,
        Want::File(path) => Want::File(path.clone()),
        Want::Line => Want::Line,
        Want::Moment => Want::Moment,
        Want::Call(id, args) => Want::Call(*id, copy_values(args)),
    }
}

/// The state with nothing wanted.
pub open spec fn settled(w: World) -> World {
    World { wanted: Wish::Nothing, ..w }
}

impl Interpreter {
    /// Evaluates a form on a copy of the interpreter and gives the copy
    /// with what the evaluation came to; the interpreter itself stays as
    /// it is. The attempt stopped exactly where the evaluation failed and
    /// left something wanted. A host then shows what the copy printed,
    /// supplies what is wanted to the interpreter and attempts the form
    /// again; where the attempt ended, the copy is the interpreter after
    /// the form.
    pub fn attempt(&self, form: &Value) -> (r: (Interpreter, Attempt))
        ensures
            leaves(
                r.0@,
                match r.1 {
                    Attempt::Ended(result) => result,
                    Attempt::Stopped(_, e) => Err(e),
                },
                evaluate(settled(self@), form@, self.depth as nat),
            ),
            r.0.depth == self.depth,
            self.wf() ==> r.0.wf(),
            match r.1 {
                Attempt::Ended(_) => r.0@.wanted is Nothing,
                Attempt::Stopped(want, _) => want@ == r.0@.wanted && !(want@ is Nothing),
            },
    {
        let mut trial = self.duplicate();
        trial.wanted = Want::Nothing;
        let result = trial.evaluate(form);
        match result {
            Ok(v) => (trial, Attempt::Ended(Ok(v))),
            Err(e) => match &trial.wanted {
                Want::Nothing => (trial, Attempt::Ended(Err(e))),
                other => {
                    let want = copy_want(other);
                    (trial, Attempt::Stopped(want, e))
                },
            },
        }
    }

    /// A copy of the interpreter: the same state and the same budget.
    pub fn duplicate(&self) -> (r: Interpreter)
        ensures
            r@ == self@,
            r.depth == self.depth,
    {
        Interpreter {
            current_namespace: self.current_namespace.clone(),
            namespaces: copy_namespaces(&self.namespaces),
            vars: copy_vars(&self.vars),
            atoms: copy_values(&self.atoms),
            scopes: copy_scopes(&self.scopes),
            symbol_index: match &self.symbol_index {
                Some(names) => Some(clone_texts(names)),
                None => None,
            },
            output: copy_chars(&self.output),
            files: self.files.duplicate(),
            written: self.written.duplicate(),
            lines: clone_texts(&self.lines),
            clock: self.clock,
            live: self.live,
            ended: self.ended,
            moments: copy_moments(&self.moments),
            answers: copy_values(&self.answers),
            wanted: copy_want(&self.wanted),
            depth: self.depth,
        }
    }

    /// Makes the contents of a file readable; nothing is wanted afterwards.
    pub fn supply_file(&mut self, path: &str, contents: String)
        ensures
            final(self)@ == with_file(old(self)@, path@, contents@),
            final(self).depth == old(self).depth,
    {
        self.files.put(path, Value::String(contents));
        self.wanted = Want::Nothing;
    }

    /// Adds a line of input; nothing is wanted afterwards.
    pub fn supply_line(&mut self, line: String)
        ensures
            final(self)@ == with_line(old(self)@, line@),
            final(self).depth == old(self).depth,
    {
        proof {
            crate::value::lemma_texts_push(self.lines@, line);
        }
        self.lines.push(line);
        self.wanted = Want::Nothing;
    }

    /// Adds what a procedure of the host's own gave; nothing is wanted
    /// afterwards.
    pub fn supply_answer(&mut self, answer: Value)
        ensures
            final(self)@ == with_answer(old(self)@, answer@),
            final(self).depth == old(self).depth,
    {
        proof {
            crate::collections::lemma_data_push(self.answers@, answer);
        }
        self.answers.push(answer);
        self.wanted = Want::Nothing;
    }

    /// Binds a name of the current namespace to a procedure of the host's
    /// own, which the host knows by a number.
    pub fn register_primitive(&mut self, name: &str, id: usize) -> (r: EvaluationResult<Value>)
        ensures
            final(self)@ == crate::world::intern_in(
                old(self)@,
                old(self)@.current_namespace,
                name@,
                Some(Datum::Primitive(Primitive::Host(id))),
            ).0,
            match r {
                Ok(v) => crate::world::intern_in(
                    old(self)@,
                    old(self)@.current_namespace,
                    name@,
                    Some(Datum::Primitive(Primitive::Host(id))),
                ).1 == Ok::<Datum, crate::errors::Failure>(v@),
                Err(e) => crate::world::intern_in(
                    old(self)@,
                    old(self)@.current_namespace,
                    name@,
                    Some(Datum::Primitive(Primitive::Host(id))),
                ).1 == Err::<Datum, crate::errors::Failure>(e@),
            },
            final(self).depth == old(self).depth,
    {
        self.intern_var(name, Value::Primitive(Primitive::Host(id)))
    }

    /// Adds a time; nothing is wanted afterwards.
    pub fn supply_moment(&mut self, moment: i64)
        ensures
            final(self)@ == with_moment(old(self)@, moment),
            final(self).depth == old(self).depth,
    {
        self.moments.push(moment);
        self.wanted = Want::Nothing;
    }
}

/// An evaluation that leaves something wanted of the host, where nothing
/// was wanted before, has failed: the host can supply what is wanted and
/// evaluate the form again on the state from before.
pub proof fn law_wanted_means_stopped(w: World, form: Datum, fuel: nat)
    requires
        w.wanted is Nothing,
    ensures
        !(crate::semantics::evaluate(w, form, fuel).world.wanted is Nothing)
            ==> crate::semantics::evaluate(w, form, fuel).result is Err,
{
    crate::balance::law_evaluate_keeps_scopes(w, form, fuel);
}

/// Reading a file that is not among the readable ones fails, changes
/// nothing else, and leaves the file wanted; after the host supplied its
/// contents, reading it gives them.
pub proof fn law_supplied_file_is_read(w: World, path: Seq<char>, contents: Seq<char>, fuel: nat)
    requires
        crate::world::frame_wf(w.files),
        crate::world::frame_get(w.files, path) is None,
    ensures
        crate::semantics::call_primitive(
            w,
            crate::value::Primitive::Slurp,
            seq![Datum::String(path)],
            fuel,
        ) == crate::world::fail(
            World { wanted: Wish::File(path), ..w },
            crate::errors::Failure::IOError("file not found: "@ + path),
        ),
        crate::semantics::call_primitive(
            with_file(w, path, contents),
            crate::value::Primitive::Slurp,
            seq![Datum::String(path)],
            fuel,
        ) == crate::world::ok(with_file(w, path, contents), Datum::String(contents)),
{
    crate::world::lemma_frame_put_get(w.files, path, Datum::String(contents));
}

} // verus!
