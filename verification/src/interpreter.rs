//! The evaluator: special forms, macro expansion, the analysis of function
//! bodies and the application of functions and primitives.
//!
//! Every function here leaves exactly what `semantics` says of it.
use crate::bindings::{parse_let, rest_of, LetForm};
use crate::collections::{
    data, lemma_data_index, lemma_data_push, lemma_data_take, list_from_vec, list_to_vec,
    vector_items, vector_len, vector_new, vector_to_vec, vector_from_vec, PersistentVector,
};
use crate::errors::{
    list_failure, wrapped_failure, EvaluationError, EvaluationResult, Failure, InterpreterError,
    ListEvaluationError, SymbolEvaluationError,
};
use crate::maps::{
    exception_from_thrown, exception_is_thrown, list_with_values, map_with_entries,
    set_with_values, vector_with_values,
};
use crate::params::{get_lambda_parameter_level, lambda_parameter_key};
use crate::prelude::agrees;
use crate::quasiquote::{empty_list, eval_quasiquote, is_symbol_named, symbol};
use crate::semantics::{
    analyze_form, analyze_lambda, analyze_list, analyze_nested, analyze_pairs, analyze_run,
    analyze_tail, apply_fn, apply_lambda, apply_macro, apply_primitive, assign, bind_names,
    bind_operands, call_primitive, capture, capture_values, catch_of, closed_over, declare,
    dispatch, do_from, eval, eval_def, eval_defmacro, eval_fn, eval_globally, eval_if, eval_let,
    eval_list, eval_loop, eval_macroexpand, eval_quasiquote as eval_quasiquote_spec, eval_quote,
    eval_recur, eval_run, eval_try, eval_var, evaluate, expand_if_present, extend_from_captures,
    handle, hoist, invoke, let_bind, loop_bind, loop_iterate, loop_limit, macro_expansion,
    macro_of, noted, own_names, parameters, plain_symbol, resolve_captures, Analysis,
    AnalysisMany, Many, Tracks,
};
use crate::state::{find_name, frames, lemma_frames_push, Interpreter, Scope};
use crate::value::{lemma_texts_push, texts, Datum, FnImpl, FnWithCapturesImpl, Primitive, Value};
use crate::world::{enter_scope, leave_scope, scopes_get, Frame, Outcome, World};
use vstd::prelude::*;

verus! {

/// Whether a state and a result are what the semantics gives.
pub open spec fn leaves(after: World, r: EvaluationResult<Value>, o: Outcome) -> bool {
    after == o.world && agrees(r, o.result)
}

/// Whether a state and the values of a run are what the semantics gives.
pub open spec fn leaves_many(after: World, r: Result<Vec<Value>, EvaluationError>, m: Many)
    -> bool {
    after == m.world && match r {
        Ok(values) => m.result == Ok::<Seq<Datum>, Failure>(data(values@)),
        Err(e) => m.result == Err::<Seq<Datum>, Failure>(e@),
    }
}

/// The scopes and capture sets of an analysis.
pub struct Analyzer {
    pub scopes: Vec<Scope>,
    pub captures: Vec<Vec<String>>,
}

/// The views of a stack of capture sets.
pub open spec fn capture_sets(captures: Seq<Vec<String>>) -> Seq<Seq<Seq<char>>> {
    captures.map_values(|names: Vec<String>| texts(names@))
}

impl View for Analyzer {
    type V = Tracks;

    open spec fn view(&self) -> Tracks {
        Tracks { scopes: frames(self.scopes@), captures: capture_sets(self.captures@) }
    }
}

/// Whether a state, the tracks of an analysis and a result are what the
/// semantics gives.
pub open spec fn analyzed(
    after: World,
    tracks: Tracks,
    r: EvaluationResult<Value>,
    a: Analysis,
) -> bool {
    after == a.world && tracks == a.tracks && agrees(r, a.result)
}

/// Likewise for a run of forms.
pub open spec fn analyzed_many(
    after: World,
    tracks: Tracks,
    r: Result<Vec<Value>, EvaluationError>,
    a: AnalysisMany,
) -> bool {
    after == a.world && tracks == a.tracks && match r {
        Ok(values) => a.result == Ok::<Seq<Datum>, Failure>(data(values@)),
        Err(e) => a.result == Err::<Seq<Datum>, Failure>(e@),
    }
}

/// The error of an evaluation that nests too deep or loops too long.
pub fn budget_spent() -> (e: EvaluationError)
    ensures
        e@ == Failure::BudgetSpent,
{
    EvaluationError::Interpreter(InterpreterError::BudgetSpent)
}

/// Once evaluating a run fails, it fails the same way however far it goes.
pub proof fn lemma_eval_run_fails(w: World, items: Seq<Datum>, k: int, n: int, fuel: nat)
    requires
        0 <= k <= n <= items.len(),
        eval_run(w, items, k as nat, fuel).result is Err,
    ensures
        eval_run(w, items, n as nat, fuel) == eval_run(w, items, k as nat, fuel),
    decreases n - k,
{
    if k < n {
        lemma_eval_run_fails(w, items, k, n - 1, fuel);
    }
}

/// Once analyzing a run fails, it fails the same way however far it goes.
pub proof fn lemma_analyze_run_fails(
    w: World,
    items: Seq<Datum>,
    k: int,
    n: int,
    tracks: Tracks,
    level: usize,
    fuel: nat,
)
    requires
        0 <= k <= n <= items.len(),
        analyze_run(w, items, k as nat, tracks, level, fuel).result is Err,
    ensures
        analyze_run(w, items, n as nat, tracks, level, fuel) == analyze_run(
            w,
            items,
            k as nat,
            tracks,
            level,
            fuel,
        ),
    decreases n - k,
{
    if k < n {
        lemma_analyze_run_fails(w, items, k, n - 1, tracks, level, fuel);
    }
}

/// Once analyzing pairs fails, it fails the same way however far it goes.
pub proof fn lemma_analyze_pairs_fails(
    w: World,
    items: Seq<Datum>,
    k: int,
    n: int,
    tracks: Tracks,
    level: usize,
    fuel: nat,
)
    requires
        0 <= k <= n,
        2 * n <= items.len(),
        analyze_pairs(w, items, k as nat, tracks, level, fuel).result is Err,
    ensures
        analyze_pairs(w, items, n as nat, tracks, level, fuel) == analyze_pairs(
            w,
            items,
            k as nat,
            tracks,
            level,
            fuel,
        ),
    decreases n - k,
{
    if k < n {
        lemma_analyze_pairs_fails(w, items, k, n - 1, tracks, level, fuel);
    }
}

/// Once resolving captures fails, it fails the same way however far it
/// goes.
pub proof fn lemma_capture_values_fails(scopes: Seq<Frame>, names: Seq<Seq<char>>, k: int, n: int)
    requires
        0 <= k <= n <= names.len(),
        capture_values(scopes, names, k as nat) is Err,
    ensures
        capture_values(scopes, names, n as nat) == capture_values(scopes, names, k as nat),
    decreases n - k,
{
    if k < n {
        lemma_capture_values_fails(scopes, names, k, n - 1);
    }
}

/// Once the parameters fail, they fail the same way however far they go.
pub proof fn lemma_parameters_fails(params: Seq<Datum>, level: usize, k: int, n: int)
    requires
        0 <= k <= n <= params.len(),
        parameters(params, level, k as nat) is Err,
    ensures
        parameters(params, level, n as nat) == parameters(params, level, k as nat),
    decreases n - k,
{
    if k < n {
        lemma_parameters_fails(params, level, k, n - 1);
    }
}

/// Once a name of the bindings is no symbol, none of the longer runs of
/// names is good.
pub proof fn lemma_own_names_fails(bindings: Seq<Datum>, k: int, n: int)
    requires
        0 <= k <= n,
        2 * n <= bindings.len(),
        own_names(bindings, k as nat) is None,
    ensures
        own_names(bindings, n as nat) is None,
    decreases n - k,
{
    if k < n {
        lemma_own_names_fails(bindings, k, n - 1);
    }
}

/// Copies of the forms after the head of a list; none for a list without
/// head.
pub fn after_head(forms: &Vec<Value>) -> (r: Vec<Value>)
    ensures
        data(r@) == crate::semantics::rest(data(forms@)),
{
    if forms.len() == 0 {
        let none: Vec<Value> = Vec::new();
        assert(data(none@) =~= Seq::<Datum>::empty());
        none
    } else {
        rest_of(forms, 1)
    }
}

/// Copies of the forms of a list with the second form replaced.
fn with_second(forms: &Vec<Value>, second: Value) -> (r: Vec<Value>)
    requires
        forms.len() >= 2,
    ensures
        data(r@) == data(forms@).update(1, second@),
{
    let mut all = rest_of(forms, 0);
    assert(data(forms@).skip(0) =~= data(forms@));
    proof {
        crate::collections::lemma_data_update(all@, 1, second);
    }
    all.set(1, second);
    all
}

/// Once analyzing a template fails, it fails the same way however far it
/// goes.
pub proof fn lemma_template_run_fails(
    w: World,
    items: Seq<Datum>,
    k: int,
    n: int,
    tracks: Tracks,
    level: usize,
    fuel: nat,
)
    requires
        0 <= k <= n <= items.len(),
        crate::semantics::analyze_template_run(w, items, k as nat, tracks, level, fuel).result
            is Err,
    ensures
        crate::semantics::analyze_template_run(w, items, n as nat, tracks, level, fuel)
            == crate::semantics::analyze_template_run(w, items, k as nat, tracks, level, fuel),
    decreases n - k,
{
    if k < n {
        lemma_template_run_fails(w, items, k, n - 1, tracks, level, fuel);
    }
}

/// The item at a place of a run.
pub fn item(items: &Vec<Value>, i: usize) -> (r: &Value)
    requires
        i < items.len(),
    ensures
        r@ == data(items@)[i as int],
        data(items@).len() == items.len(),
{
    proof {
        lemma_data_index(items@, i as int);
    }
    &items[i]
}

/// The identifier of an unqualified symbol.
pub fn plain_symbol_of(v: &Value) -> (r: Option<&String>)
    ensures
        match r {
            Some(s) => plain_symbol(v@) == Some(s@),
            None => plain_symbol(v@) is None,
        },
{
    match v {
        Value::Symbol(s, None) => Some(s),
        _ => None,
    }
}

/// Adds a name to a set of names.
pub fn note_name(names: &mut Vec<String>, name: &str)
    ensures
        texts(final(names)@) == noted(texts(old(names)@), name@),
{
    if find_name(names, name).is_none() {
        let owned = String::from_str(name);
        proof {
            lemma_texts_push(names@, owned);
        }
        names.push(owned);
    }
}

impl Analyzer {
    /// An analysis without scopes and capture sets.
    pub fn new() -> (r: Analyzer)
        ensures
            r@ == (Tracks { scopes: Seq::empty(), captures: Seq::empty() }),
    {
        let r = Analyzer { scopes: Vec::new(), captures: Vec::new() };
        assert(r@.scopes =~= Seq::<Frame>::empty());
        assert(r@.captures =~= Seq::<Seq<Seq<char>>>::empty());
        r
    }

    /// What the innermost scope that binds a name gives it.
    pub fn get(&self, identifier: &str) -> (r: Option<&Value>)
        ensures
            match r {
                Some(v) => scopes_get(self@.scopes, identifier@) == Some(v@),
                None => scopes_get(self@.scopes, identifier@) is None,
            },
    {
        let mut n: usize = self.scopes.len();
        assert(frames(self.scopes@).take(n as int) =~= frames(self.scopes@));
        while n > 0
            invariant
                0 <= n <= self.scopes.len(),
                scopes_get(frames(self.scopes@), identifier@) == scopes_get(
                    frames(self.scopes@).take(n as int),
                    identifier@,
                ),
            decreases n,
        {
            let ghost stack = frames(self.scopes@).take(n as int);
            assert(stack.last() == self.scopes@[n - 1]@);
            assert(stack.drop_last() =~= frames(self.scopes@).take(n - 1));
            match self.scopes[n - 1].get(identifier) {
                Some(v) => {
                    return Some(v);
                },
                None => {},
            }
            n = n - 1;
        }
        assert(frames(self.scopes@).take(0).len() == 0);
        None
    }

    /// Opens a scope.
    pub fn push_scope(&mut self, scope: Scope)
        ensures
            final(self)@ == (Tracks {
                scopes: old(self)@.scopes.push(scope@),
                captures: old(self)@.captures,
            }),
    {
        proof {
            lemma_frames_push(self.scopes@, scope);
        }
        self.scopes.push(scope);
    }

    /// Closes the innermost scope, where there is one.
    pub fn pop_scope(&mut self)
        ensures
            final(self)@ == (Tracks {
                scopes: crate::semantics::popped(old(self)@.scopes),
                captures: old(self)@.captures,
            }),
    {
        if self.scopes.len() > 0 {
            self.scopes.pop();
            assert(frames(self.scopes@) =~= frames(old(self).scopes@).drop_last());
        }
    }

    /// Adds a name to the innermost capture set, where there is one.
    pub fn capture(&mut self, name: &str)
        ensures
            final(self)@ == (Tracks {
                scopes: old(self)@.scopes,
                captures: capture(old(self)@.captures, name@),
            }),
    {
        if self.captures.len() > 0 {
            let mut set = self.captures.pop().unwrap();
            let ghost rest = self.captures@;
            note_name(&mut set, name);
            self.captures.push(set);
            assert(capture_sets(self.captures@) =~= capture(
                capture_sets(old(self).captures@),
                name@,
            ));
        }
    }

    /// Opens an empty capture set.
    pub fn push_captures(&mut self)
        ensures
            final(self)@ == (Tracks {
                scopes: old(self)@.scopes,
                captures: old(self)@.captures.push(Seq::empty()),
            }),
    {
        let set: Vec<String> = Vec::new();
        assert(texts(set@) =~= Seq::<Seq<char>>::empty());
        self.captures.push(set);
        assert(capture_sets(self.captures@) =~= capture_sets(old(self).captures@).push(
            Seq::empty(),
        ));
    }

    /// Closes the innermost capture set and gives its names; no names where
    /// there is none.
    pub fn pop_captures(&mut self) -> (own: Vec<String>)
        ensures
            texts(own@) == (if old(self)@.captures.len() > 0 {
                old(self)@.captures.last()
            } else {
                Seq::empty()
            }),
            final(self)@ == (Tracks {
                scopes: old(self)@.scopes,
                captures: if old(self)@.captures.len() > 0 {
                    old(self)@.captures.drop_last()
                } else {
                    old(self)@.captures
                },
            }),
    {
        if self.captures.len() > 0 {
            let own = self.captures.pop().unwrap();
            assert(capture_sets(self.captures@) =~= capture_sets(old(self).captures@).drop_last());
            own
        } else {
            let own: Vec<String> = Vec::new();
            assert(texts(own@) =~= Seq::<Seq<char>>::empty());
            own
        }
    }

    /// Adds to the innermost capture set each name whose level is below
    /// `level`.
    pub fn hoist(&mut self, names: &Vec<String>, level: usize)
        ensures
            final(self)@ == (Tracks {
                scopes: old(self)@.scopes,
                captures: hoist(
                    old(self)@.captures,
                    texts(names@),
                    level,
                    names.len() as nat,
                ),
            }),
    {
        let mut i: usize = 0;
        while i < names.len()
            invariant
                0 <= i <= names.len(),
                self@ == (Tracks {
                    scopes: old(self)@.scopes,
                    captures: hoist(old(self)@.captures, texts(names@), level, i as nat),
                }),
            decreases names.len() - i,
        {
            match get_lambda_parameter_level(names[i].as_str()) {
                Some(l) => {
                    if l < level {
                        self.capture(names[i].as_str());
                    }
                },
                None => {},
            }
            i = i + 1;
        }
    }
}

/// The symbol of the reserved name of a parameter.
pub fn parameter_symbol(index: usize, level: usize) -> (r: Value)
    ensures
        r@ == crate::quasiquote::sym(crate::params::parameter_key(index as nat, level as nat)),
{
    Value::Symbol(lambda_parameter_key(index, level), None)
}

/// The scope of the parameters of a function, and whether it is variadic.
pub fn parameter_scope(params: &Vec<Value>, level: usize) -> (r: Result<
    (Scope, bool),
    EvaluationError,
>)
    ensures
        match r {
            Ok((scope, variadic)) => parameters(data(params@), level, params.len() as nat)
                == Ok::<(Frame, bool), Failure>((scope@, variadic)) && (variadic
                ==> scope.names.len() >= 1),
            Err(e) => parameters(data(params@), level, params.len() as nat) == Err::<(Frame, bool), Failure>(e@),
        },
{
    let mut frame = Scope::new();
    let mut variadic = false;
    let ghost terms = data(params@);
    let mut i: usize = 0;
    while i < params.len()
        invariant
            0 <= i <= params.len(),
            terms == data(params@),
            parameters(terms, level, i as nat) == Ok::<(Frame, bool), Failure>(
                (frame@, variadic),
            ),
            variadic ==> frame@.names.len() >= 1,
        decreases params.len() - i,
    {
        if !variadic {
            let p = item(params, i);
            if is_symbol_named(p, "&") {
                if i + 1 < params.len() && i + 2 == params.len() {
                    let next = item(params, i + 1);
                    let named = if is_symbol_named(next, "&") {
                        None
                    } else {
                        plain_symbol_of(next)
                    };
                    match named {
                        Some(s) => {
                            proof {
                                crate::world::lemma_frame_put_nonempty(
                                    frame@,
                                    s@,
                                    crate::quasiquote::sym(
                                        crate::params::parameter_key(i as nat, level as nat),
                                    ),
                                );
                            }
                            frame.put(s.as_str(), parameter_symbol(i, level));
                            variadic = true;
                        },
                        None => {
                            proof {
                                lemma_parameters_fails(terms, level, i + 1, terms.len() as int);
                            }
                            return Err(
                                list_failure(
                                    "could not evaluate `fn*`: variadic binding must be a symbol",
                                ),
                            );
                        },
                    }
                } else {
                    proof {
                        lemma_parameters_fails(terms, level, i + 1, terms.len() as int);
                    }
                    return Err(
                        list_failure(
                            "could not evaluate `fn*`: variadic binding missing after `&`",
                        ),
                    );
                }
            } else {
                match plain_symbol_of(p) {
                    Some(s) => {
                        frame.put(s.as_str(), parameter_symbol(i, level));
                    },
                    None => {
                        proof {
                            lemma_parameters_fails(terms, level, i + 1, terms.len() as int);
                        }
                        return Err(
                            list_failure(
                                "could not evaluate `fn*`: parameters must be non-namespaced symbols",
                            ),
                        );
                    },
                }
            }
        }
        i = i + 1;
    }
    Ok((frame, variadic))
}

/// The scope that maps the name of each pair of a bindings vector to
/// itself.
pub fn own_scope(bindings: &Vec<Value>) -> (r: Option<Scope>)
    requires
        bindings.len() % 2 == 0,
    ensures
        match r {
            Some(scope) => own_names(data(bindings@), (bindings.len() / 2) as nat) == Some(
                scope@,
            ),
            None => own_names(data(bindings@), (bindings.len() / 2) as nat) is None,
        },
{
    let mut frame = Scope::new();
    let ghost terms = data(bindings@);
    let mut i: usize = 0;
    while i + 1 < bindings.len()
        invariant
            0 <= i <= bindings.len(),
            i % 2 == 0,
            bindings.len() % 2 == 0,
            terms == data(bindings@),
            own_names(terms, (i / 2) as nat) == Some(frame@),
        decreases bindings.len() - i,
    {
        proof {
            assert(2 * ((i + 2) / 2) - 2 == i);
        }
        match plain_symbol_of(item(bindings, i)) {
            Some(s) => {
                frame.put(s.as_str(), Value::Symbol(s.clone(), None));
            },
            None => {
                proof {
                    lemma_own_names_fails(terms, (i + 2) / 2, terms.len() as int / 2);
                }
                return None;
            },
        }
        i = i + 2;
    }
    Some(frame)
}

impl Interpreter {
    /// The values of captured names: those that a closure holds where it
    /// holds one for each name, those that the scopes give the names
    /// otherwise.
    pub fn update_captures(&self, names: &Vec<String>, values: &PersistentVector) -> (r: Result<
        PersistentVector,
        EvaluationError,
    >)
        ensures
            match r {
                Ok(resolved) => resolve_captures(self@.scopes, texts(names@), vector_items(*values))
                    == Ok::<Seq<Datum>, Failure>(vector_items(resolved)),
                Err(e) => resolve_captures(self@.scopes, texts(names@), vector_items(*values))
                    == Err::<Seq<Datum>, Failure>(e@),
            },
    {
        if vector_len(values) == names.len() {
            return Ok(crate::collections::vector_clone(values));
        }
        let mut resolved: Vec<Value> = Vec::new();
        let mut i: usize = 0;
        assert(data(resolved@) =~= Seq::<Datum>::empty());
        while i < names.len()
            invariant
                0 <= i <= names.len(),
                vector_items(*values).len() != texts(names@).len(),
                capture_values(self@.scopes, texts(names@), i as nat) == Ok::<Seq<Datum>, Failure>(
                    data(resolved@),
                ),
            decreases names.len() - i,
        {
            match self.resolve_symbol_in_scopes(names[i].as_str()) {
                Some(v) => {
                    let v = v.clone();
                    proof {
                        lemma_data_push(resolved@, v);
                    }
                    resolved.push(v);
                },
                None => {
                    proof {
                        lemma_capture_values_fails(
                            self@.scopes,
                            texts(names@),
                            i + 1,
                            names.len() as int,
                        );
                    }
                    return Err(
                        EvaluationError::Symbol(
                            SymbolEvaluationError::UnableToResolveSymbolToValue(names[i].clone()),
                        ),
                    );
                },
            }
            i = i + 1;
        }
        Ok(vector_from_vec(resolved))
    }

    /// A closure with its captures resolved; any other value as it is.
    pub fn close_over(&self, v: Value) -> (r: EvaluationResult<Value>)
        ensures
            agrees(r, closed_over(self@, v@)),
    {
        match v {
            Value::FnWithCaptures(c) => {
                match self.update_captures(&c.names, &c.values) {
                    Ok(resolved) => Ok(
                        Value::FnWithCaptures(
                            FnWithCapturesImpl { f: c.f, names: c.names, values: resolved },
                        ),
                    ),
                    Err(e) => Err(e),
                }
            },
            other => Ok(other),
        }
    }

    /// Binds, in order, names to the values at their places.
    pub fn bind_all(&mut self, names: &Vec<String>, values: &Vec<Value>)
        ensures
            final(self)@ == bind_names(
                old(self)@,
                texts(names@),
                data(values@),
                if names.len() <= values.len() {
                    names.len() as nat
                } else {
                    values.len() as nat
                },
            ),
            final(self).depth == old(self).depth,
    {
        let count = if names.len() <= values.len() {
            names.len()
        } else {
            values.len()
        };
        let mut i: usize = 0;
        while i < count
            invariant
                0 <= i <= count,
                count <= names.len(),
                count <= values.len(),
                self.depth == old(self).depth,
                self@ == bind_names(old(self)@, texts(names@), data(values@), i as nat),
            decreases count - i,
        {
            self.insert_value_in_current_scope(names[i].as_str(), item(values, i).clone());
            i = i + 1;
        }
    }

    /// Opens a scope that holds the captures of a closure. Fails, and
    /// opens nothing, for a closure whose captures are not resolved.
    pub fn extend_from_captures(&mut self, names: &Vec<String>, values: &PersistentVector) -> (r:
        Result<(), EvaluationError>)
        ensures
            final(self)@ == extend_from_captures(
                old(self)@,
                texts(names@),
                vector_items(*values),
            ).0,
            match r {
                Ok(_) => extend_from_captures(old(self)@, texts(names@), vector_items(*values)).1
                    is None,
                Err(e) => extend_from_captures(old(self)@, texts(names@), vector_items(*values)).1
                    == Some(e@),
            },
            final(self).depth == old(self).depth,
    {
        let held = vector_to_vec(values);
        if held.len() == names.len() {
            self.enter_scope();
            self.bind_all(names, &held);
            Ok(())
        } else {
            let first = if names.len() > 0 {
                names[0].clone()
            } else {
                String::new()
            };
            Err(EvaluationError::List(ListEvaluationError::MissingCapturedValue(first)))
        }
    }

    /// Opens a scope that holds the captures of a closure, resolved from
    /// the scopes first where the closure does not hold them yet. Fails,
    /// and opens nothing, where a capture is bound in no scope.
    pub fn extend_resolved(&mut self, names: &Vec<String>, values: &PersistentVector) -> (r: Result<
        (),
        EvaluationError,
    >)
        ensures
            final(self)@ == crate::semantics::extend_resolved(
                old(self)@,
                texts(names@),
                vector_items(*values),
            ).0,
            match r {
                Ok(_) => crate::semantics::extend_resolved(
                    old(self)@,
                    texts(names@),
                    vector_items(*values),
                ).1 is None,
                Err(e) => crate::semantics::extend_resolved(
                    old(self)@,
                    texts(names@),
                    vector_items(*values),
                ).1 == Some(e@),
            },
            final(self).depth == old(self).depth,
    {
        match self.update_captures(names, values) {
            Err(e) => Err(e),
            Ok(resolved) => {
                let held = vector_to_vec(&resolved);
                proof {
                    lemma_capture_count(self@.scopes, texts(names@), vector_items(*values));
                }
                self.enter_scope();
                self.bind_all(names, &held);
                Ok(())
            },
        }
    }

    /// Binds the first `count` operands under the reserved names of a
    /// level.
    pub fn bind_operands(&mut self, level: usize, args: &Vec<Value>, count: usize)
        requires
            count <= args.len(),
        ensures
            final(self)@ == bind_operands(old(self)@, level, data(args@), count as nat),
            final(self).depth == old(self).depth,
    {
        let mut i: usize = 0;
        while i < count
            invariant
                0 <= i <= count <= args.len(),
                self.depth == old(self).depth,
                self@ == bind_operands(old(self)@, level, data(args@), i as nat),
            decreases count - i,
        {
            let key = lambda_parameter_key(i, level);
            self.insert_value_in_current_scope(key.as_str(), item(args, i).clone());
            i = i + 1;
        }
    }

    /// Gives a name a value: the var that the scopes hold under the name
    /// takes the value; without such a var the name is bound in the
    /// innermost scope.
    pub fn assign(&mut self, name: &str, value: Value)
        ensures
            final(self)@ == assign(old(self)@, name@, value@),
            final(self).depth == old(self).depth,
    {
        let cell: Option<usize> = match self.resolve_symbol_in_scopes(name) {
            Some(Value::Var(var)) => Some(var.cell),
            _ => None,
        };
        match cell {
            Some(cell) => self.var_set(cell, Some(value)),
            None => self.insert_value_in_current_scope(name, value),
        }
    }

    /// Declares, in order, each mentioned name: a new var that holds `nil`
    /// is bound to it in the innermost scope.
    pub fn declare_forward(&mut self, mentioned: &Vec<String>)
        ensures
            final(self)@ == declare(old(self)@, texts(mentioned@), mentioned.len() as nat),
            final(self).depth == old(self).depth,
    {
        let mut i: usize = 0;
        while i < mentioned.len()
            invariant
                0 <= i <= mentioned.len(),
                self.depth == old(self).depth,
                self@ == declare(old(self)@, texts(mentioned@), i as nat),
            decreases mentioned.len() - i,
        {
            let cell = self.var_new(None);
            proof {
                reveal_strlit("");
                assert(""@ =~= Seq::<char>::empty());
            }
            let var = crate::state::var_of(cell, "", mentioned[i].as_str());
            self.insert_value_in_current_scope(mentioned[i].as_str(), var);
            i = i + 1;
        }
    }

    /// Evaluate the `form` according to the semantics of the language. A
    /// `recur` that reaches the top is an error.
    pub fn evaluate(&mut self, form: &Value) -> (r: EvaluationResult<Value>)
        ensures
            leaves(final(self)@, r, evaluate(old(self)@, form@, old(self).depth as nat)),
            final(self).depth == old(self).depth,
            final(self)@.scopes.len() == old(self)@.scopes.len(),
            final(self)@.atoms.len() >= old(self)@.atoms.len(),
            old(self).wf() ==> final(self).wf(),
            r is Ok ==> final(self)@.wanted == old(self)@.wanted,
            !(r matches Ok(Value::Recur(_))),
    {
        proof {
            crate::balance::law_evaluate_keeps_scopes(self@, form@, self.depth as nat);
        }
        match self.eval_form(form) {
            Ok(Value::Recur(_)) => Err(list_failure("`recur` outside of `loop*`")),
            other => other,
        }
    }

    /// The value of a form.
    pub fn eval_form(&mut self, form: &Value) -> (r: EvaluationResult<Value>)
        ensures
            leaves(final(self)@, r, eval(old(self)@, form@, old(self).depth as nat)),
            final(self).depth == old(self).depth,
        decreases old(self).depth, 0nat, 0nat,
    {
        if self.depth == 0 {
            return Err(budget_spent());
        }
        self.depth = self.depth - 1;
        let r = match form {
            Value::Symbol(id, ns) => self.resolve_symbol(id.as_str(), ns),
            Value::List(forms) => {
                let items = list_to_vec(forms);
                self.eval_list(&items)
            },
            Value::Vector(forms) => {
                let items = vector_to_vec(forms);
                match self.eval_items(&items) {
                    Ok(values) => Ok(vector_with_values(values)),
                    Err(e) => Err(e),
                }
            },
            Value::HashMap(m) => {
                let items = vector_to_vec(&m.entries);
                match self.eval_items(&items) {
                    Ok(values) => Ok(map_with_entries(values)),
                    Err(e) => Err(e),
                }
            },
            Value::HashSet(s) => {
                let items = vector_to_vec(&s.members);
                match self.eval_items(&items) {
                    Ok(values) => Ok(set_with_values(values)),
                    Err(e) => Err(e),
                }
            },
            Value::Var(_) => Ok(self.deref_value(form.clone())),
            Value::FnWithCaptures(_) => self.close_over(form.clone()),
            other => Ok(other.clone()),
        };
        self.depth = self.depth + 1;
        r
    }

    /// The values of a run of forms, evaluated in order.
    pub fn eval_items(&mut self, items: &Vec<Value>) -> (r: Result<Vec<Value>, EvaluationError>)
        ensures
            leaves_many(
                final(self)@,
                r,
                eval_run(old(self)@, data(items@), items.len() as nat, old(self).depth as nat),
            ),
            final(self).depth == old(self).depth,
        decreases old(self).depth, 10nat, 0nat,
    {
        let mut out: Vec<Value> = Vec::new();
        let ghost terms = data(items@);
        let ghost w = self@;
        let ghost fuel = self.depth as nat;
        let mut i: usize = 0;
        assert(data(out@) =~= Seq::<Datum>::empty());
        while i < items.len()
            invariant
                0 <= i <= items.len(),
                terms == data(items@),
                w == old(self)@,
                fuel == old(self).depth,
                self.depth == old(self).depth,
                eval_run(w, terms, i as nat, fuel) == (Many {
                    world: self@,
                    result: Ok(data(out@)),
                }),
            decreases items.len() - i,
        {
            match self.eval_form(item(items, i)) {
                Ok(v) => {
                    proof {
                        lemma_data_push(out@, v);
                    }
                    out.push(v);
                },
                Err(e) => {
                    proof {
                        lemma_eval_run_fails(w, terms, i + 1, terms.len() as int, fuel);
                    }
                    return Err(e);
                },
            }
            i = i + 1;
        }
        Ok(out)
    }

    /// The value of a body: the value of its last form, `nil` for an empty
    /// body; the first exception in flight ends it early.
    pub fn eval_do_inner(&mut self, forms: &Vec<Value>) -> (r: EvaluationResult<Value>)
        ensures
            leaves(
                final(self)@,
                r,
                do_from(old(self)@, data(forms@), 0, Datum::Nil, old(self).depth as nat),
            ),
            final(self).depth == old(self).depth,
        decreases old(self).depth, 10nat, 0nat,
    {
        let mut last = Value::Nil;
        let ghost terms = data(forms@);
        let ghost w = self@;
        let ghost fuel = self.depth as nat;
        let mut i: usize = 0;
        while i < forms.len()
            invariant
                0 <= i <= forms.len(),
                terms == data(forms@),
                w == old(self)@,
                fuel == old(self).depth,
                self.depth == old(self).depth,
                do_from(w, terms, 0, Datum::Nil, fuel) == do_from(
                    self@,
                    terms,
                    i as int,
                    last@,
                    fuel,
                ),
            decreases forms.len() - i,
        {
            match self.eval_form(item(forms, i)) {
                Ok(v) => {
                    if exception_is_thrown(&v) {
                        return Ok(v);
                    }
                    last = v;
                },
                Err(e) => {
                    return Err(e);
                },
            }
            i = i + 1;
        }
        Ok(last)
    }

    /// Apply the given `Fn` to operands that are values already.
    pub fn apply_fn_inner(&mut self, f: &FnImpl, args: &Vec<Value>) -> (r: EvaluationResult<Value>)
        ensures
            leaves(
                final(self)@,
                r,
                apply_lambda(old(self)@, f@, data(args@), old(self).depth as nat),
            ),
            final(self).depth == old(self).depth,
        decreases old(self).depth, 20nat, 0nat,
    {
        let fits = if f.variadic {
            args.len() >= f.arity
        } else {
            args.len() == f.arity
        };
        if !fits {
            return Err(list_failure("could not apply `fn*`: incorrect arity"));
        }
        self.enter_scope();
        self.bind_operands(f.level, args, f.arity);
        if f.variadic {
            let rest = rest_of(args, f.arity);
            let key = lambda_parameter_key(f.arity, f.level);
            self.insert_value_in_current_scope(key.as_str(), list_with_values(rest));
        }
        let body = list_to_vec(&f.body);
        let result = match self.eval_do_inner(&body) {
            Ok(v) => self.close_over(v),
            Err(e) => Err(e),
        };
        self.leave_scope();
        result
    }

    /// Applies something that can be applied to operands that are values
    /// already.
    pub fn invoke(&mut self, callee: &Value, args: &Vec<Value>) -> (r: EvaluationResult<Value>)
        ensures
            leaves(
                final(self)@,
                r,
                invoke(old(self)@, callee@, data(args@), old(self).depth as nat),
            ),
            final(self).depth == old(self).depth,
        decreases old(self).depth, 45nat, 0nat,
    {
        match callee {
            Value::Fn(f) => self.apply_fn_inner(f, args),
            Value::FnWithCaptures(c) => {
                match self.extend_from_captures(&c.names, &c.values) {
                    Err(e) => Err(e),
                    Ok(_) => {
                        let r = self.apply_fn_inner(&c.f, args);
                        self.leave_scope();
                        r
                    },
                }
            },
            Value::Primitive(p) => self.call_primitive(*p, args),
            _ => Err(crate::prelude::incorrect_argument_error()),
        }
    }

    /// The macro that the head of a list names.
    pub fn macro_named(&self, head: &Value) -> (r: Option<FnImpl>)
        ensures
            match r {
                Some(f) => macro_of(self@, head@) == Some(f@),
                None => macro_of(self@, head@) is None,
            },
    {
        match head {
            Value::Symbol(id, ns) => match self.resolve_symbol(id.as_str(), ns) {
                Ok(Value::Macro(f)) => Some(f),
                _ => None,
            },
            Value::Var(v) => match self.var_get(v.cell) {
                Some(Value::Macro(f)) => Some(f.duplicate()),
                _ => None,
            },
            _ => None,
        }
    }

    /// The expansion of a list whose head names a macro.
    pub fn get_macro_expansion(&mut self, forms: &Vec<Value>) -> (r: Option<EvaluationResult<Value>>)
        ensures
            match r {
                Some(result) => macro_expansion(old(self)@, data(forms@), old(self).depth as nat)
                    is Some && leaves(
                    final(self)@,
                    result,
                    macro_expansion(old(self)@, data(forms@), old(self).depth as nat)->0,
                ),
                None => macro_expansion(old(self)@, data(forms@), old(self).depth as nat) is None
                    && final(self)@ == old(self)@,
            },
            final(self).depth == old(self).depth,
        decreases old(self).depth, 40nat, 0nat,
    {
        if forms.len() == 0 {
            return None;
        }
        match self.macro_named(item(forms, 0)) {
            Some(f) => Some(self.apply_macro(&f, forms)),
            None => None,
        }
    }

    /// The full expansion of a macro call.
    pub fn apply_macro(&mut self, f: &FnImpl, forms: &Vec<Value>) -> (r: EvaluationResult<Value>)
        ensures
            leaves(
                final(self)@,
                r,
                apply_macro(old(self)@, f@, data(forms@), old(self).depth as nat),
            ),
            final(self).depth == old(self).depth,
        decreases old(self).depth, 30nat, 0nat,
    {
        if forms.len() == 0 {
            return Err(list_failure("could not apply macro"));
        }
        let args = rest_of(forms, 1);
        match self.apply_fn_inner(f, &args) {
            Ok(Value::List(expanded)) => {
                if self.depth == 0 {
                    return Err(budget_spent());
                }
                self.depth = self.depth - 1;
                let items = list_to_vec(&expanded);
                let r = self.expand_macro_if_present(&items);
                self.depth = self.depth + 1;
                r
            },
            Ok(other) => Ok(other),
            Err(e) => Err(wrapped_failure("could not apply macro: ", &e)),
        }
    }

    /// A list expanded where its head names a macro, and as it is
    /// otherwise.
    pub fn expand_macro_if_present(&mut self, forms: &Vec<Value>) -> (r: EvaluationResult<Value>)
        ensures
            leaves(
                final(self)@,
                r,
                expand_if_present(old(self)@, data(forms@), old(self).depth as nat),
            ),
            final(self).depth == old(self).depth,
        decreases old(self).depth, 50nat, 0nat,
    {
        match self.get_macro_expansion(forms) {
            Some(result) => result,
            None => {
                let all = rest_of(forms, 0);
                assert(data(forms@).skip(0) =~= data(forms@));
                Ok(list_with_values(all))
            },
        }
    }

    /// The value of a list.
    pub fn eval_list(&mut self, forms: &Vec<Value>) -> (r: EvaluationResult<Value>)
        ensures
            leaves(final(self)@, r, eval_list(old(self)@, data(forms@), old(self).depth as nat)),
            final(self).depth == old(self).depth,
        decreases old(self).depth, 90nat, 0nat,
    {
        if forms.len() == 0 {
            return Ok(empty_list());
        }
        match self.get_macro_expansion(forms) {
            Some(result) => match result {
                Ok(expanded) => self.eval_form(&expanded),
                Err(e) => Err(e),
            },
            None => self.dispatch(forms),
        }
    }

    /// The value of a list whose head names no macro.
    pub fn dispatch(&mut self, forms: &Vec<Value>) -> (r: EvaluationResult<Value>)
        ensures
            leaves(final(self)@, r, dispatch(old(self)@, data(forms@), old(self).depth as nat)),
            final(self).depth == old(self).depth,
        decreases old(self).depth, 80nat, 0nat,
    {
        if forms.len() == 0 {
            return Ok(empty_list());
        }
        let head = item(forms, 0);
        if is_symbol_named(head, "def!") {
            self.eval_def(forms)
        } else if is_symbol_named(head, "var") {
            self.eval_var(forms)
        } else if is_symbol_named(head, "let*") {
            self.eval_let(forms)
        } else if is_symbol_named(head, "loop*") {
            self.eval_loop(forms)
        } else if is_symbol_named(head, "recur") {
            self.eval_recur(forms)
        } else if is_symbol_named(head, "if") {
            self.eval_if(forms)
        } else if is_symbol_named(head, "do") {
            self.eval_do(forms)
        } else if is_symbol_named(head, "fn*") {
            self.eval_fn(forms)
        } else if is_symbol_named(head, "quote") {
            self.eval_quote(forms)
        } else if is_symbol_named(head, "quasiquote") {
            self.eval_quasiquote(forms)
        } else if is_symbol_named(head, "defmacro!") {
            self.eval_defmacro(forms)
        } else if is_symbol_named(head, "macroexpand") {
            self.eval_macroexpand(forms)
        } else if is_symbol_named(head, "try*") {
            self.eval_try(forms)
        } else {
            match self.eval_form(head) {
                Ok(Value::Fn(f)) => self.apply_fn(&f, forms),
                Ok(Value::FnWithCaptures(c)) => {
                    match self.extend_resolved(&c.names, &c.values) {
                        Err(e) => Err(e),
                        Ok(_) => {
                            let r = self.apply_fn(&c.f, forms);
                            self.leave_scope();
                            r
                        },
                    }
                },
                Ok(Value::Primitive(p)) => self.apply_primitive(p, forms),
                Ok(v) => Err(EvaluationError::List(ListEvaluationError::CannotInvoke(v))),
                Err(e) => Err(e),
            }
        }
    }

    /// Applies a function to the forms after the head of a list: the forms
    /// are evaluated in order, then the function is applied.
    pub fn apply_fn(&mut self, f: &FnImpl, forms: &Vec<Value>) -> (r: EvaluationResult<Value>)
        ensures
            leaves(final(self)@, r, apply_fn(old(self)@, f@, data(forms@), old(self).depth as nat)),
            final(self).depth == old(self).depth,
        decreases old(self).depth, 65nat, 0nat,
    {
        if forms.len() == 0 {
            return Err(list_failure("could not apply `fn*`"));
        }
        let args = rest_of(forms, 1);
        match self.eval_items(&args) {
            Ok(values) => self.apply_fn_inner(f, &values),
            Err(e) => Err(wrapped_failure("could not apply `fn*`: ", &e)),
        }
    }

    /// Applies a primitive to the forms after the head of a list.
    pub fn apply_primitive(&mut self, p: Primitive, forms: &Vec<Value>) -> (r: EvaluationResult<
        Value,
    >)
        ensures
            leaves(
                final(self)@,
                r,
                apply_primitive(old(self)@, p, data(forms@), old(self).depth as nat),
            ),
            final(self).depth == old(self).depth,
        decreases old(self).depth, 65nat, 0nat,
    {
        let args = after_head(forms);
        match self.eval_items(&args) {
            Ok(values) => self.call_primitive(p, &values),
            Err(e) => Err(e),
        }
    }

    /// `(def! symbol form)`
    pub fn eval_def(&mut self, forms: &Vec<Value>) -> (r: EvaluationResult<Value>)
        ensures
            leaves(final(self)@, r, eval_def(old(self)@, data(forms@), old(self).depth as nat)),
            final(self).depth == old(self).depth,
        decreases old(self).depth, 70nat, 0nat,
    {
        if forms.len() < 2 {
            return Err(list_failure("could not evaluate `def!`"));
        }
        let id = match plain_symbol_of(item(forms, 1)) {
            Some(id) => id,
            None => {
                return Err(list_failure("could not evaluate `def!`"));
            },
        };
        if forms.len() < 3 {
            return self.intern_unbound_var(id.as_str());
        }
        let value_form = item(forms, 2);
        let (var, existed) = match self.resolve_var_in_current_namespace(id.as_str()) {
            Ok(v) => (v, true),
            Err(EvaluationError::Symbol(SymbolEvaluationError::MissingVar(_, _))) => {
                match self.intern_unbound_var(id.as_str()) {
                    Ok(v) => (v, false),
                    Err(e) => {
                        return Err(e);
                    },
                }
            },
            Err(e) => {
                return Err(e);
            },
        };
        match self.eval_form(value_form) {
            Ok(value) => {
                match &var {
                    Value::Var(v) => {
                        self.var_set(v.cell, Some(value));
                    },
                    _ => {},
                }
                Ok(var)
            },
            Err(e) => {
                if !existed {
                    self.unintern_var(id.as_str());
                }
                Err(wrapped_failure("could not evaluate `def!`: ", &e))
            },
        }
    }

    /// `(var symbol)`
    pub fn eval_var(&mut self, forms: &Vec<Value>) -> (r: EvaluationResult<Value>)
        ensures
            leaves(final(self)@, r, eval_var(old(self)@, data(forms@))),
            final(self).depth == old(self).depth,
    {
        if forms.len() >= 2 {
            match item(forms, 1) {
                Value::Symbol(s, ns_opt) => {
                    return match ns_opt {
                        Some(ns_desc) => self.resolve_var_in_namespace(
                            s.as_str(),
                            ns_desc.as_str(),
                        ),
                        None => self.resolve_var_in_current_namespace(s.as_str()),
                    };
                },
                _ => {},
            }
        }
        Err(list_failure("could not evaluate `var`"))
    }

    /// Evaluates and assigns the bindings of a `let*` from place `from` on.
    pub fn bind_let(&mut self, names: &Vec<String>, forms: &Vec<Value>) -> (r: Result<
        (),
        EvaluationError,
    >)
        ensures
            final(self)@ == let_bind(
                old(self)@,
                texts(names@),
                data(forms@),
                0,
                old(self).depth as nat,
            ).0,
            match r {
                Ok(_) => let_bind(
                    old(self)@,
                    texts(names@),
                    data(forms@),
                    0,
                    old(self).depth as nat,
                ).1 is None,
                Err(e) => let_bind(
                    old(self)@,
                    texts(names@),
                    data(forms@),
                    0,
                    old(self).depth as nat,
                ).1 == Some(e@),
            },
            final(self).depth == old(self).depth,
        decreases old(self).depth, 10nat, 0nat,
    {
        let ghost w = self@;
        let ghost fuel = self.depth as nat;
        let mut i: usize = 0;
        while i < names.len() && i < forms.len()
            invariant
                0 <= i <= names.len(),
                i <= forms.len(),
                w == old(self)@,
                fuel == old(self).depth,
                self.depth == old(self).depth,
                let_bind(w, texts(names@), data(forms@), 0, fuel) == let_bind(
                    self@,
                    texts(names@),
                    data(forms@),
                    i as int,
                    fuel,
                ),
            decreases names.len() - i,
        {
            match self.eval_form(item(forms, i)) {
                Ok(value) => {
                    self.assign(names[i].as_str(), value);
                },
                Err(e) => {
                    return Err(e);
                },
            }
            i = i + 1;
        }
        Ok(())
    }

    /// `(let* [name form ...] body...)`
    pub fn eval_let(&mut self, forms: &Vec<Value>) -> (r: EvaluationResult<Value>)
        ensures
            leaves(final(self)@, r, eval_let(old(self)@, data(forms@), old(self).depth as nat)),
            final(self).depth == old(self).depth,
        decreases old(self).depth, 72nat, 0nat,
    {
        let let_forms = after_head(forms);
        let LetForm { bindings, body } = match parse_let(&let_forms) {
            Ok(f) => f,
            Err(e) => {
                return Err(e);
            },
        };
        self.enter_scope();
        let mentioned = bindings.resolve_forward_declarations();
        self.declare_forward(&mentioned);
        match self.bind_let(&bindings.names, &bindings.forms) {
            Ok(_) => {},
            Err(e) => {
                self.leave_scope();
                return Err(e);
            },
        }
        let result = self.eval_do_inner(&body);
        self.leave_scope();
        result
    }

    /// Evaluates and binds the pairs of a `loop*`; gives their names.
    pub fn bind_loop(&mut self, elems: &Vec<Value>) -> (r: Result<Vec<String>, EvaluationError>)
        ensures
            final(self)@ == loop_bind(
                old(self)@,
                data(elems@),
                0,
                Seq::empty(),
                old(self).depth as nat,
            ).0,
            match r {
                Ok(keys) => loop_bind(
                    old(self)@,
                    data(elems@),
                    0,
                    Seq::empty(),
                    old(self).depth as nat,
                ).1 == Ok::<Seq<Seq<char>>, Failure>(texts(keys@)),
                Err(e) => loop_bind(
                    old(self)@,
                    data(elems@),
                    0,
                    Seq::empty(),
                    old(self).depth as nat,
                ).1 == Err::<Seq<Seq<char>>, Failure>(e@),
            },
            final(self).depth == old(self).depth,
        decreases old(self).depth, 10nat, 0nat,
    {
        let ghost w = self@;
        let ghost fuel = self.depth as nat;
        let ghost terms = data(elems@);
        let mut keys: Vec<String> = Vec::new();
        let mut i: usize = 0;
        assert(texts(keys@) =~= Seq::<Seq<char>>::empty());
        while i + 1 < elems.len()
            invariant
                0 <= i <= elems.len(),
                i % 2 == 0,
                terms == data(elems@),
                w == old(self)@,
                fuel == old(self).depth,
                self.depth == old(self).depth,
                loop_bind(w, terms, 0, Seq::empty(), fuel) == loop_bind(
                    self@,
                    terms,
                    i as int / 2,
                    texts(keys@),
                    fuel,
                ),
            decreases elems.len() - i,
        {
            proof {
                assert(2 * (i as int / 2) == i);
            }
            match plain_symbol_of(item(elems, i)) {
                Some(s) => {
                    match self.eval_form(item(elems, i + 1)) {
                        Ok(value) => {
                            self.insert_value_in_current_scope(s.as_str(), value);
                            let owned = s.clone();
                            proof {
                                lemma_texts_push(keys@, owned);
                            }
                            keys.push(owned);
                        },
                        Err(e) => {
                            return Err(e);
                        },
                    }
                },
                None => {
                    return Err(list_failure("could not evaluate `loop*`"));
                },
            }
            proof {
                assert((i + 2) as int / 2 == i as int / 2 + 1);
            }
            i = i + 2;
        }
        proof {
            assert(2 * (i as int / 2) + 1 >= terms.len());
        }
        Ok(keys)
    }

    /// Evaluates the body of a `loop*` again and again while it gives a
    /// `recur`.
    pub fn iterate_loop(&mut self, keys: &Vec<String>, body: &Vec<Value>) -> (r: EvaluationResult<
        Value,
    >)
        ensures
            leaves(
                final(self)@,
                r,
                loop_iterate(
                    old(self)@,
                    texts(keys@),
                    data(body@),
                    old(self).depth as nat,
                    loop_limit(),
                ),
            ),
            final(self).depth == old(self).depth,
        decreases old(self).depth, 25nat, 0nat,
    {
        let ghost w = self@;
        let ghost fuel = self.depth as nat;
        let mut steps: usize = usize::MAX;
        loop
            invariant
                w == old(self)@,
                fuel == old(self).depth,
                self.depth == old(self).depth,
                loop_iterate(w, texts(keys@), data(body@), fuel, loop_limit()) == loop_iterate(
                    self@,
                    texts(keys@),
                    data(body@),
                    fuel,
                    steps as nat,
                ),
            decreases steps,
        {
            match self.eval_do_inner(body) {
                Ok(Value::Recur(next)) => {
                    let next = vector_to_vec(&next);
                    if next.len() != keys.len() {
                        return Err(
                            list_failure(
                                "could not evaluate `loop*`: recur with incorrect number of bindings",
                            ),
                        );
                    }
                    if steps == 0 {
                        return Err(budget_spent());
                    }
                    self.bind_all(keys, &next);
                    steps = steps - 1;
                },
                other => {
                    return other;
                },
            }
        }
    }

    /// `(loop* [name form ...] body...)`
    pub fn eval_loop(&mut self, forms: &Vec<Value>) -> (r: EvaluationResult<Value>)
        ensures
            leaves(final(self)@, r, eval_loop(old(self)@, data(forms@), old(self).depth as nat)),
            final(self).depth == old(self).depth,
        decreases old(self).depth, 72nat, 0nat,
    {
        if forms.len() < 2 {
            return Err(list_failure("could not evaluate `loop*`"));
        }
        let elems = match item(forms, 1) {
            Value::Vector(elems) => vector_to_vec(elems),
            _ => {
                return Err(list_failure("could not evaluate `loop*`"));
            },
        };
        if elems.len() % 2 != 0 {
            return Err(list_failure("could not evaluate `loop*`"));
        }
        let body = rest_of(forms, 2);
        if body.len() == 0 {
            return Ok(Value::Nil);
        }
        self.enter_scope();
        let keys = match self.bind_loop(&elems) {
            Ok(keys) => keys,
            Err(e) => {
                self.leave_scope();
                return Err(e);
            },
        };
        let result = self.iterate_loop(&keys, &body);
        self.leave_scope();
        result
    }

    /// `(recur form...)`
    pub fn eval_recur(&mut self, forms: &Vec<Value>) -> (r: EvaluationResult<Value>)
        ensures
            leaves(final(self)@, r, eval_recur(old(self)@, data(forms@), old(self).depth as nat)),
            final(self).depth == old(self).depth,
        decreases old(self).depth, 72nat, 0nat,
    {
        if forms.len() == 0 {
            return Err(list_failure("could not evaluate `recur`"));
        }
        let args = rest_of(forms, 1);
        match self.eval_items(&args) {
            Ok(values) => Ok(Value::Recur(vector_from_vec(values))),
            Err(e) => Err(e),
        }
    }

    /// `(if predicate consequent alternate?)`
    pub fn eval_if(&mut self, forms: &Vec<Value>) -> (r: EvaluationResult<Value>)
        ensures
            leaves(final(self)@, r, eval_if(old(self)@, data(forms@), old(self).depth as nat)),
            final(self).depth == old(self).depth,
        decreases old(self).depth, 72nat, 0nat,
    {
        if forms.len() < 3 {
            return Err(list_failure("could not evaluate `if`"));
        }
        match self.eval_form(item(forms, 1)) {
            Ok(p) => {
                let isfalse = match p {
                    Value::Nil => true,
                    Value::Bool(false) => true,
                    _ => false,
                };
                if !isfalse {
                    self.eval_form(item(forms, 2))
                } else if forms.len() >= 4 {
                    self.eval_form(item(forms, 3))
                } else {
                    Ok(Value::Nil)
                }
            },
            Err(e) => Err(e),
        }
    }

    /// `(do form...)`
    pub fn eval_do(&mut self, forms: &Vec<Value>) -> (r: EvaluationResult<Value>)
        ensures
            leaves(
                final(self)@,
                r,
                crate::semantics::eval_do_form(old(self)@, data(forms@), old(self).depth as nat),
            ),
            final(self).depth == old(self).depth,
        decreases old(self).depth, 72nat, 0nat,
    {
        if forms.len() == 0 {
            return Err(list_failure("could not evaluate `do`"));
        }
        let rest = rest_of(forms, 1);
        self.eval_do_inner(&rest)
    }

    /// `(fn* [parameter...] body...)`
    pub fn eval_fn(&mut self, forms: &Vec<Value>) -> (r: EvaluationResult<Value>)
        ensures
            leaves(final(self)@, r, eval_fn(old(self)@, data(forms@), old(self).depth as nat)),
            final(self).depth == old(self).depth,
        decreases old(self).depth, 72nat, 0nat,
    {
        if forms.len() >= 2 {
            match item(forms, 1) {
                Value::Vector(params) => {
                    let params = vector_to_vec(params);
                    let body = rest_of(forms, 2);
                    let mut tracks = Analyzer::new();
                    return self.analyze_symbols_in_fn(&body, &params, &mut tracks, 0);
                },
                _ => {},
            }
        }
        Err(list_failure("could not evaluate `fn*`"))
    }

    /// `(quote form)`
    pub fn eval_quote(&mut self, forms: &Vec<Value>) -> (r: EvaluationResult<Value>)
        ensures
            leaves(final(self)@, r, eval_quote(old(self)@, data(forms@))),
            final(self).depth == old(self).depth,
    {
        if forms.len() == 2 {
            Ok(item(forms, 1).clone())
        } else {
            Err(list_failure("could not evaluate `quote`"))
        }
    }

    /// `(quasiquote form)`
    pub fn eval_quasiquote(&mut self, forms: &Vec<Value>) -> (r: EvaluationResult<Value>)
        ensures
            leaves(
                final(self)@,
                r,
                eval_quasiquote_spec(old(self)@, data(forms@), old(self).depth as nat),
            ),
            final(self).depth == old(self).depth,
        decreases old(self).depth, 72nat, 0nat,
    {
        if forms.len() >= 2 {
            match eval_quasiquote(item(forms, 1)) {
                Ok(expansion) => self.eval_form(&expansion),
                Err(e) => Err(e),
            }
        } else {
            Err(list_failure("could not evaluate `quasiquote`"))
        }
    }

    /// `(defmacro! symbol form)`
    pub fn eval_defmacro(&mut self, forms: &Vec<Value>) -> (r: EvaluationResult<Value>)
        ensures
            leaves(
                final(self)@,
                r,
                eval_defmacro(old(self)@, data(forms@), old(self).depth as nat),
            ),
            final(self).depth == old(self).depth,
        decreases old(self).depth, 75nat, 0nat,
    {
        match self.eval_def(forms) {
            Ok(Value::Var(var)) => {
                let promoted: Option<Value> = match self.var_get(var.cell) {
                    Some(Value::Fn(f)) => Some(Value::Macro(f.duplicate())),
                    _ => None,
                };
                match promoted {
                    Some(m) => {
                        self.var_set(var.cell, Some(m));
                        Ok(Value::Var(var))
                    },
                    None => {
                        self.unintern_var(var.identifier.as_str());
                        Err(
                            list_failure(
                                "could not evaluate `defmacro!`: body must be `fn*` without captures",
                            ),
                        )
                    },
                }
            },
            Ok(_) => Err(
                list_failure(
                    "could not evaluate `defmacro!`: body must be `fn*` without captures",
                ),
            ),
            Err(e) => Err(wrapped_failure("could not evaluate `defmacro!`: ", &e)),
        }
    }

    /// `(macroexpand form)`
    pub fn eval_macroexpand(&mut self, forms: &Vec<Value>) -> (r: EvaluationResult<Value>)
        ensures
            leaves(
                final(self)@,
                r,
                eval_macroexpand(old(self)@, data(forms@), old(self).depth as nat),
            ),
            final(self).depth == old(self).depth,
        decreases old(self).depth, 72nat, 0nat,
    {
        if forms.len() == 0 {
            return Err(EvaluationError::WrongArity { expected: 1, realized: 0 });
        }
        if forms.len() != 2 {
            return Err(EvaluationError::WrongArity { expected: 1, realized: forms.len() - 1 });
        }
        match self.eval_form(item(forms, 1)) {
            Ok(Value::List(elems)) => {
                let items = list_to_vec(&elems);
                self.expand_macro_if_present(&items)
            },
            other => other,
        }
    }

    /// The handler of a `try*`.
    #[verifier::rlimit(60)]
    pub fn catch_form(&mut self, rest: &Vec<Value>) -> (r: Result<Option<Value>, EvaluationError>)
        ensures
            final(self)@ == catch_of(old(self)@, data(rest@), old(self).depth as nat).0,
            match r {
                Ok(Some(h)) => catch_of(old(self)@, data(rest@), old(self).depth as nat).1 == Ok::<Option<Datum>, Failure>(
                    Some(h@),
                ),
                Ok(None) => catch_of(old(self)@, data(rest@), old(self).depth as nat).1 == Ok::<Option<Datum>, Failure>(
                    None,
                ),
                Err(e) => catch_of(old(self)@, data(rest@), old(self).depth as nat).1 == Err::<Option<Datum>, Failure>(
                    e@,
                ),
            },
            final(self).depth == old(self).depth,
        decreases old(self).depth, 71nat, 0nat,
    {
        if rest.len() == 0 {
            return Ok(None);
        }
        let last_form = item(rest, rest.len() - 1);
        match last_form {
            Value::List(l) => {
                let last = list_to_vec(l);
                if last.len() > 0 && is_symbol_named(item(&last, 0), "catch*") {
                    if last.len() >= 2 {
                        let exception_symbol = item(&last, 1);
                        match plain_symbol_of(exception_symbol) {
                            Some(_) => {
                                let mut binding: Vec<Value> = Vec::new();
                                binding.push(exception_symbol.clone());
                                assert(data(binding@) =~= seq![data(last@)[1]]);
                                let body = rest_of(&last, 2);
                                let mut tracks = Analyzer::new();
                                match self.analyze_symbols_in_fn(&body, &binding, &mut tracks, 0) {
                                    Ok(handler) => Ok(Some(handler)),
                                    Err(e) => Err(e),
                                }
                            },
                            None => Err(list_failure("could not evaluate `catch*`")),
                        }
                    } else {
                        Ok(None)
                    }
                } else {
                    Ok(None)
                }
            },
            Value::Fn(_) => Ok(Some(last_form.clone())),
            Value::FnWithCaptures(_) => Ok(Some(last_form.clone())),
            _ => Ok(None),
        }
    }

    /// Runs a handler's body with the exception bound to its parameter.
    pub fn handle(&mut self, handler: &Value, thrown: Value) -> (r: EvaluationResult<Value>)
        ensures
            leaves(
                final(self)@,
                r,
                handle(old(self)@, handler@, thrown@, old(self).depth as nat),
            ),
            final(self).depth == old(self).depth,
        decreases old(self).depth, 71nat, 0nat,
    {
        match handler {
            Value::Fn(f) => {
                self.enter_scope();
                let parameter = lambda_parameter_key(0, f.level);
                self.insert_value_in_current_scope(
                    parameter.as_str(),
                    exception_from_thrown(&thrown),
                );
                let body = list_to_vec(&f.body);
                let result = self.eval_do_inner(&body);
                self.leave_scope();
                result
            },
            Value::FnWithCaptures(c) => {
                match self.extend_resolved(&c.names, &c.values) {
                    Err(e) => Err(e),
                    Ok(_) => {
                        self.enter_scope();
                        let parameter = lambda_parameter_key(0, c.f.level);
                        self.insert_value_in_current_scope(
                            parameter.as_str(),
                            exception_from_thrown(&thrown),
                        );
                        let body = list_to_vec(&c.f.body);
                        let result = self.eval_do_inner(&body);
                        self.leave_scope();
                        self.leave_scope();
                        result
                    },
                }
            },
            _ => Ok(thrown),
        }
    }

    /// `(try* form... (catch* symbol body...))`
    pub fn eval_try(&mut self, forms: &Vec<Value>) -> (r: EvaluationResult<Value>)
        ensures
            leaves(final(self)@, r, eval_try(old(self)@, data(forms@), old(self).depth as nat)),
            final(self).depth == old(self).depth,
        decreases old(self).depth, 72nat, 0nat,
    {
        if forms.len() == 0 {
            return Err(list_failure("could not evaluate `try*`"));
        }
        let rest = rest_of(forms, 1);
        let handler = match self.catch_form(&rest) {
            Ok(h) => h,
            Err(e) => {
                return Err(e);
            },
        };
        let forms_to_eval = match &handler {
            Some(_) => {
                let mut front = rest;
                let ghost all = front@;
                front.pop();
                proof {
                    lemma_data_take(all, all.len() - 1);
                    assert(front@ =~= all.take(all.len() - 1));
                }
                front
            },
            None => rest,
        };
        match self.eval_do_inner(&forms_to_eval) {
            Ok(v) => {
                if exception_is_thrown(&v) {
                    match &handler {
                        Some(h) => self.handle(h, v),
                        None => Ok(v),
                    }
                } else {
                    Ok(v)
                }
            },
            Err(e) => Err(e),
        }
    }

    /// The analyzed function of parameters and a body, at a nesting level.
    pub fn analyze_symbols_in_fn(
        &mut self,
        body: &Vec<Value>,
        params: &Vec<Value>,
        tracks: &mut Analyzer,
        level: usize,
    ) -> (r: EvaluationResult<Value>)
        ensures
            analyzed(
                final(self)@,
                final(tracks)@,
                r,
                analyze_lambda(
                    old(self)@,
                    data(body@),
                    data(params@),
                    old(tracks)@,
                    level,
                    old(self).depth as nat,
                ),
            ),
            final(self).depth == old(self).depth,
        decreases old(self).depth, 55nat, 0nat,
    {
        let (frame, variadic) = match parameter_scope(params, level) {
            Ok(p) => p,
            Err(e) => {
                return Err(e);
            },
        };
        let arity = if variadic {
            frame.names.len() - 1
        } else {
            frame.names.len()
        };
        tracks.push_scope(frame);
        let analyzed_body = match self.analyze_items(body, tracks, level) {
            Ok(b) => b,
            Err(e) => {
                return Err(e);
            },
        };
        tracks.pop_scope();
        Ok(Value::Fn(FnImpl { body: list_from_vec(analyzed_body), arity, level, variadic }))
    }

    /// A run of forms analyzed in order.
    pub fn analyze_items(&mut self, items: &Vec<Value>, tracks: &mut Analyzer, level: usize) -> (r:
        Result<Vec<Value>, EvaluationError>)
        ensures
            analyzed_many(
                final(self)@,
                final(tracks)@,
                r,
                analyze_run(
                    old(self)@,
                    data(items@),
                    items.len() as nat,
                    old(tracks)@,
                    level,
                    old(self).depth as nat,
                ),
            ),
            final(self).depth == old(self).depth,
        decreases old(self).depth, 10nat, 0nat,
    {
        let mut out: Vec<Value> = Vec::new();
        let ghost terms = data(items@);
        let ghost w = self@;
        let ghost t = tracks@;
        let ghost fuel = self.depth as nat;
        let mut i: usize = 0;
        assert(data(out@) =~= Seq::<Datum>::empty());
        while i < items.len()
            invariant
                0 <= i <= items.len(),
                terms == data(items@),
                w == old(self)@,
                t == old(tracks)@,
                fuel == old(self).depth,
                self.depth == old(self).depth,
                analyze_run(w, terms, i as nat, t, level, fuel) == (AnalysisMany {
                    world: self@,
                    tracks: tracks@,
                    result: Ok(data(out@)),
                }),
            decreases items.len() - i,
        {
            match self.analyze_form_in_fn(item(items, i), tracks, level) {
                Ok(v) => {
                    proof {
                        lemma_data_push(out@, v);
                    }
                    out.push(v);
                },
                Err(e) => {
                    proof {
                        lemma_analyze_run_fails(w, terms, i + 1, terms.len() as int, t, level, fuel);
                    }
                    return Err(e);
                },
            }
            i = i + 1;
        }
        Ok(out)
    }

    /// A form analyzed inside a function at a nesting level.
    pub fn analyze_form_in_fn(&mut self, form: &Value, tracks: &mut Analyzer, level: usize) -> (r:
        EvaluationResult<Value>)
        ensures
            analyzed(
                final(self)@,
                final(tracks)@,
                r,
                analyze_form(old(self)@, form@, old(tracks)@, level, old(self).depth as nat),
            ),
            final(self).depth == old(self).depth,
        decreases old(self).depth, 0nat, 0nat,
    {
        if self.depth == 0 {
            return Err(budget_spent());
        }
        self.depth = self.depth - 1;
        let r = match form {
            Value::Symbol(identifier, ns_opt) => {
                let found: Option<Value> = match tracks.get(identifier.as_str()) {
                    Some(v) => Some(v.clone()),
                    None => None,
                };
                match found {
                    Some(value) => {
                        match &value {
                            Value::Symbol(resolved, None) => {
                                match get_lambda_parameter_level(resolved.as_str()) {
                                    Some(l) => {
                                        if l < level {
                                            tracks.capture(resolved.as_str());
                                        }
                                    },
                                    None => {},
                                }
                            },
                            _ => {},
                        }
                        Ok(value)
                    },
                    None => self.resolve_symbol_to_var(identifier.as_str(), ns_opt),
                }
            },
            Value::List(elems) => {
                let items = list_to_vec(elems);
                if items.len() == 0 {
                    Ok(empty_list())
                } else {
                    match self.get_macro_expansion(&items) {
                        Some(result) => match result {
                            Ok(Value::List(expanded)) => {
                                let expanded = list_to_vec(&expanded);
                                self.analyze_list_in_fn(&expanded, tracks, level)
                            },
                            Ok(other) => self.analyze_form_in_fn(&other, tracks, level),
                            Err(e) => Err(e),
                        },
                        None => self.analyze_list_in_fn(&items, tracks, level),
                    }
                }
            },
            Value::Vector(elems) => {
                let items = vector_to_vec(elems);
                match self.analyze_items(&items, tracks, level) {
                    Ok(values) => Ok(vector_with_values(values)),
                    Err(e) => Err(e),
                }
            },
            Value::HashMap(m) => {
                let items = vector_to_vec(&m.entries);
                match self.analyze_items(&items, tracks, level) {
                    Ok(values) => Ok(map_with_entries(values)),
                    Err(e) => Err(e),
                }
            },
            Value::HashSet(s) => {
                let items = vector_to_vec(&s.members);
                match self.analyze_items(&items, tracks, level) {
                    Ok(values) => Ok(set_with_values(values)),
                    Err(e) => Err(e),
                }
            },
            other => Ok(other.clone()),
        };
        self.depth = self.depth + 1;
        r
    }

    /// The pairs of a bindings vector with their value forms analyzed.
    pub fn analyze_bindings(&mut self, bindings: &Vec<Value>, tracks: &mut Analyzer, level: usize)
        -> (r: Result<Vec<Value>, EvaluationError>)
        requires
            bindings.len() % 2 == 0,
        ensures
            analyzed_many(
                final(self)@,
                final(tracks)@,
                r,
                analyze_pairs(
                    old(self)@,
                    data(bindings@),
                    (bindings.len() / 2) as nat,
                    old(tracks)@,
                    level,
                    old(self).depth as nat,
                ),
            ),
            final(self).depth == old(self).depth,
        decreases old(self).depth, 10nat, 0nat,
    {
        let mut out: Vec<Value> = Vec::new();
        let ghost terms = data(bindings@);
        let ghost w = self@;
        let ghost t = tracks@;
        let ghost fuel = self.depth as nat;
        let mut i: usize = 0;
        assert(data(out@) =~= Seq::<Datum>::empty());
        while i + 1 < bindings.len()
            invariant
                0 <= i <= bindings.len(),
                i % 2 == 0,
                bindings.len() % 2 == 0,
                terms == data(bindings@),
                w == old(self)@,
                t == old(tracks)@,
                fuel == old(self).depth,
                self.depth == old(self).depth,
                analyze_pairs(w, terms, (i / 2) as nat, t, level, fuel) == (AnalysisMany {
                    world: self@,
                    tracks: tracks@,
                    result: Ok(data(out@)),
                }),
            decreases bindings.len() - i,
        {
            proof {
                assert(2 * ((i + 2) / 2) - 2 == i);
            }
            let name = item(bindings, i).clone();
            match self.analyze_form_in_fn(item(bindings, i + 1), tracks, level) {
                Ok(v) => {
                    proof {
                        lemma_data_push(out@, name);
                        lemma_data_push(out@.push(name), v);
                    }
                    out.push(name);
                    out.push(v);
                },
                Err(e) => {
                    proof {
                        lemma_analyze_pairs_fails(
                            w,
                            terms,
                            (i + 2) / 2,
                            terms.len() as int / 2,
                            t,
                            level,
                            fuel,
                        );
                    }
                    return Err(e);
                },
            }
            i = i + 2;
        }
        Ok(out)
    }

    /// A nested function analyzed one level deeper.
    pub fn analyze_nested(
        &mut self,
        body: &Vec<Value>,
        params: &Vec<Value>,
        tracks: &mut Analyzer,
        level: usize,
    ) -> (r: EvaluationResult<Value>)
        ensures
            analyzed(
                final(self)@,
                final(tracks)@,
                r,
                analyze_nested(
                    old(self)@,
                    data(body@),
                    data(params@),
                    old(tracks)@,
                    level,
                    old(self).depth as nat,
                ),
            ),
            final(self).depth == old(self).depth,
        decreases old(self).depth, 58nat, 0nat,
    {
        tracks.push_captures();
        let deeper = if level < usize::MAX {
            level + 1
        } else {
            level
        };
        let analyzed_fn = match self.analyze_symbols_in_fn(body, params, tracks, deeper) {
            Ok(f) => f,
            Err(e) => {
                return Err(e);
            },
        };
        let own = tracks.pop_captures();
        match analyzed_fn {
            Value::Fn(f) => {
                if own.len() > 0 {
                    tracks.hoist(&own, level);
                    Ok(
                        Value::FnWithCaptures(
                            FnWithCapturesImpl { f, names: own, values: vector_new() },
                        ),
                    )
                } else {
                    Ok(Value::Fn(f))
                }
            },
            other => Ok(other),
        }
    }

    /// The forms of a list from place `from` on analyzed, after the
    /// analyzed forms `done`.
    pub fn analyze_tail(
        &mut self,
        elems: &Vec<Value>,
        from: usize,
        done: Vec<Value>,
        tracks: &mut Analyzer,
        opened: bool,
        level: usize,
    ) -> (r: EvaluationResult<Value>)
        requires
            from <= elems.len(),
        ensures
            analyzed(
                final(self)@,
                final(tracks)@,
                r,
                analyze_tail(
                    old(self)@,
                    data(elems@),
                    from as int,
                    data(done@),
                    old(tracks)@,
                    opened,
                    level,
                    old(self).depth as nat,
                ),
            ),
            final(self).depth == old(self).depth,
        decreases old(self).depth, 59nat, 0nat,
    {
        let rest = rest_of(elems, from);
        match self.analyze_items(&rest, tracks, level) {
            Ok(mut values) => {
                if opened {
                    tracks.pop_scope();
                }
                let mut all = done;
                proof {
                    crate::collections::lemma_data_add(all@, values@);
                }
                all.append(&mut values);
                Ok(list_with_values(all))
            },
            Err(e) => Err(e),
        }
    }

    /// The template of a `quasiquote` analyzed inside a function.
    pub fn analyze_template(&mut self, t: &Value, tracks: &mut Analyzer, level: usize) -> (r:
        EvaluationResult<Value>)
        ensures
            analyzed(
                final(self)@,
                final(tracks)@,
                r,
                crate::semantics::analyze_template(
                    old(self)@,
                    t@,
                    old(tracks)@,
                    level,
                    old(self).depth as nat,
                ),
            ),
            final(self).depth == old(self).depth,
        decreases old(self).depth, 0nat, 0nat,
    {
        if self.depth == 0 {
            return Err(budget_spent());
        }
        self.depth = self.depth - 1;
        let r = match t {
            Value::List(l) => {
                let items = list_to_vec(l);
                if items.len() >= 2 && is_symbol_named(item(&items, 0), "unquote") {
                    match self.analyze_form_in_fn(item(&items, 1), tracks, level) {
                        Ok(x) => Ok(list_with_values(with_second(&items, x))),
                        Err(e) => Err(e),
                    }
                } else {
                    match self.analyze_template_items(&items, tracks, level) {
                        Ok(values) => Ok(list_with_values(values)),
                        Err(e) => Err(e),
                    }
                }
            },
            Value::Vector(v) => {
                let items = vector_to_vec(v);
                match self.analyze_template_items(&items, tracks, level) {
                    Ok(values) => Ok(vector_with_values(values)),
                    Err(e) => Err(e),
                }
            },
            Value::HashMap(_) => Ok(t.clone()),
            Value::Symbol(_, _) => Ok(t.clone()),
            other => self.analyze_form_in_fn(other, tracks, level),
        };
        self.depth = self.depth + 1;
        r
    }

    /// One item of a template analyzed.
    pub fn analyze_template_item(&mut self, form: &Value, tracks: &mut Analyzer, level: usize) -> (r:
        EvaluationResult<Value>)
        ensures
            analyzed(
                final(self)@,
                final(tracks)@,
                r,
                crate::semantics::analyze_template_item(
                    old(self)@,
                    form@,
                    old(tracks)@,
                    level,
                    old(self).depth as nat,
                ),
            ),
            final(self).depth == old(self).depth,
        decreases old(self).depth, 5nat, 0nat,
    {
        match form {
            Value::List(l) => {
                let inner = list_to_vec(l);
                if inner.len() >= 2 && is_symbol_named(item(&inner, 0), "splice-unquote") {
                    match self.analyze_form_in_fn(item(&inner, 1), tracks, level) {
                        Ok(x) => Ok(list_with_values(with_second(&inner, x))),
                        Err(e) => Err(e),
                    }
                } else {
                    self.analyze_template(form, tracks, level)
                }
            },
            _ => self.analyze_template(form, tracks, level),
        }
    }

    /// The items of a template analyzed in order.
    pub fn analyze_template_items(
        &mut self,
        items: &Vec<Value>,
        tracks: &mut Analyzer,
        level: usize,
    ) -> (r: Result<Vec<Value>, EvaluationError>)
        ensures
            analyzed_many(
                final(self)@,
                final(tracks)@,
                r,
                crate::semantics::analyze_template_run(
                    old(self)@,
                    data(items@),
                    items.len() as nat,
                    old(tracks)@,
                    level,
                    old(self).depth as nat,
                ),
            ),
            final(self).depth == old(self).depth,
        decreases old(self).depth, 10nat, 0nat,
    {
        let mut out: Vec<Value> = Vec::new();
        let ghost terms = data(items@);
        let ghost w = self@;
        let ghost t = tracks@;
        let ghost fuel = self.depth as nat;
        let mut i: usize = 0;
        assert(data(out@) =~= Seq::<Datum>::empty());
        while i < items.len()
            invariant
                0 <= i <= items.len(),
                terms == data(items@),
                w == old(self)@,
                t == old(tracks)@,
                fuel == old(self).depth,
                self.depth == old(self).depth,
                crate::semantics::analyze_template_run(w, terms, i as nat, t, level, fuel)
                    == (AnalysisMany { world: self@, tracks: tracks@, result: Ok(data(out@)) }),
            decreases items.len() - i,
        {
            match self.analyze_template_item(item(items, i), tracks, level) {
                Ok(v) => {
                    proof {
                        lemma_data_push(out@, v);
                    }
                    out.push(v);
                },
                Err(e) => {
                    proof {
                        lemma_template_run_fails(w, terms, i + 1, terms.len() as int, t, level, fuel);
                    }
                    return Err(e);
                },
            }
            i = i + 1;
        }
        Ok(out)
    }

    /// A list analyzed inside a function.
    pub fn analyze_list_in_fn(&mut self, elems: &Vec<Value>, tracks: &mut Analyzer, level: usize)
        -> (r: EvaluationResult<Value>)
        ensures
            analyzed(
                final(self)@,
                final(tracks)@,
                r,
                analyze_list(old(self)@, data(elems@), old(tracks)@, level, old(self).depth as nat),
            ),
            final(self).depth == old(self).depth,
        decreases old(self).depth, 60nat, 0nat,
    {
        if elems.len() == 0 {
            return self.analyze_tail(elems, 0, Vec::new(), tracks, false, level);
        }
        let head = item(elems, 0);
        let is_let = is_symbol_named(head, "let*");
        let is_loop = is_symbol_named(head, "loop*");
        if elems.len() >= 2 && (is_let || is_loop) {
            match item(elems, 1) {
                Value::Vector(bindings) => {
                    let bindings = vector_to_vec(bindings);
                    let what = if is_let {
                        "could not analyze `let*`"
                    } else {
                        "could not analyze `loop*`"
                    };
                    if bindings.len() % 2 != 0 {
                        return Err(list_failure(what));
                    }
                    let frame = match own_scope(&bindings) {
                        Some(frame) => frame,
                        None => {
                            return Err(list_failure(what));
                        },
                    };
                    let held: Option<Scope> = if is_let {
                        tracks.push_scope(frame);
                        None
                    } else {
                        Some(frame)
                    };
                    let analyzed_bindings = match self.analyze_bindings(&bindings, tracks, level) {
                        Ok(b) => b,
                        Err(e) => {
                            return Err(e);
                        },
                    };
                    match held {
                        Some(frame) => {
                            tracks.push_scope(frame);
                        },
                        None => {},
                    }
                    let mut done: Vec<Value> = Vec::new();
                    done.push(head.clone());
                    done.push(vector_with_values(analyzed_bindings));
                    assert(data(done@) =~= seq![
                        data(elems@)[0],
                        Datum::Vector(data(analyzed_bindings@)),
                    ]);
                    return self.analyze_tail(elems, 2, done, tracks, true, level);
                },
                _ => {},
            }
        }
        if elems.len() >= 2 && is_symbol_named(head, "fn*") {
            match item(elems, 1) {
                Value::Vector(bindings) => {
                    let params = vector_to_vec(bindings);
                    let body = rest_of(elems, 2);
                    return self.analyze_nested(&body, &params, tracks, level);
                },
                _ => {},
            }
        }
        if elems.len() >= 2 && is_symbol_named(head, "catch*") {
            let s = item(elems, 1);
            if plain_symbol_of(s).is_some() {
                let mut params: Vec<Value> = Vec::new();
                params.push(s.clone());
                assert(data(params@) =~= seq![data(elems@)[1]]);
                let body = rest_of(elems, 2);
                return self.analyze_nested(&body, &params, tracks, level);
            }
        }
        if elems.len() == 2 && is_symbol_named(head, "quote") {
            let all = rest_of(elems, 0);
            assert(data(elems@).skip(0) =~= data(elems@));
            return Ok(list_with_values(all));
        }
        if elems.len() >= 2 && is_symbol_named(head, "quasiquote") {
            return match self.analyze_template(item(elems, 1), tracks, level) {
                Ok(x) => Ok(list_with_values(with_second(elems, x))),
                Err(e) => Err(e),
            };
        }
        if is_let || is_loop {
            let mut done: Vec<Value> = Vec::new();
            done.push(head.clone());
            assert(data(done@) =~= seq![data(elems@)[0]]);
            return self.analyze_tail(elems, 1, done, tracks, false, level);
        }
        self.analyze_tail(elems, 0, Vec::new(), tracks, false, level)
    }

    /// Evaluate `form` with only the outermost scope.
    pub fn evaluate_in_global_scope(&mut self, form: &Value) -> (r: EvaluationResult<Value>)
        ensures
            leaves(final(self)@, r, eval_globally(old(self)@, form@, old(self).depth as nat)),
            final(self).depth == old(self).depth,
        decreases old(self).depth, 5nat, 0nat,
    {
        let kept: usize = if self.scopes.len() > 0 {
            1
        } else {
            0
        };
        let ghost all = self.scopes@;
        let mut child_scopes = self.scopes.split_off(kept);
        assert(frames(self.scopes@) =~= frames(all).take(kept as int));
        assert(frames(child_scopes@) =~= frames(all).skip(kept as int));
        let result = self.eval_form(form);
        let ghost left = self.scopes@;
        self.scopes.append(&mut child_scopes);
        assert(frames(self.scopes@) =~= frames(left) + frames(all).skip(kept as int));
        result
    }

    /// Applies a primitive to operands.
    pub fn call_primitive(&mut self, p: Primitive, args: &Vec<Value>) -> (r: EvaluationResult<Value>)
        ensures
            leaves(
                final(self)@,
                r,
                call_primitive(old(self)@, p, data(args@), old(self).depth as nat),
            ),
            final(self).depth == old(self).depth,
        decreases old(self).depth, 42nat, 0nat,
    {
        let a = args.as_slice();
        match p {
            Primitive::Plus => crate::prelude::plus(self, a),
            Primitive::Subtract => crate::prelude::subtract(self, a),
            Primitive::Multiply => crate::prelude::multiply(self, a),
            Primitive::Divide => crate::prelude::divide(self, a),
            Primitive::Pr => crate::prelude::pr(self, a),
            Primitive::Prn => crate::prelude::prn(self, a),
            Primitive::PrStr => crate::prelude::pr_str(self, a),
            Primitive::Print => crate::prelude::print_(self, a),
            Primitive::Println => crate::prelude::println(self, a),
            Primitive::PrintStr => crate::prelude::print_str(self, a),
            Primitive::List => crate::prelude::list(self, a),
            Primitive::IsList => crate::prelude::is_list(self, a),
            Primitive::IsEmpty => crate::prelude::is_empty(self, a),
            Primitive::Count => crate::prelude::count(self, a),
            Primitive::Less => crate::prelude::less(self, a),
            Primitive::LessEq => crate::prelude::less_eq(self, a),
            Primitive::Greater => crate::prelude::greater(self, a),
            Primitive::GreaterEq => crate::prelude::greater_eq(self, a),
            Primitive::Equal => crate::prelude::equal(self, a),
            Primitive::ReadString => crate::prelude::read_string(self, a),
            Primitive::Spit => crate::prelude::spit(self, a),
            Primitive::Slurp => crate::prelude::slurp(self, a),
            Primitive::Eval => crate::prelude::eval(self, a),
            Primitive::Str => crate::prelude::to_str(self, a),
            Primitive::Atom => crate::prelude::to_atom(self, a),
            Primitive::IsAtom => crate::prelude::is_atom(self, a),
            Primitive::Deref => crate::prelude::deref(self, a),
            Primitive::ResetAtom => crate::prelude::reset_atom(self, a),
            Primitive::SwapAtom => crate::prelude::swap_atom(self, a),
            Primitive::Cons => crate::prelude::cons(self, a),
            Primitive::Concat => crate::prelude::concat(self, a),
            Primitive::Vec => crate::prelude::vec(self, a),
            Primitive::Nth => crate::prelude::nth(self, a),
            Primitive::First => crate::prelude::first(self, a),
            Primitive::Rest => crate::prelude::rest(self, a),
            Primitive::ExInfo => crate::prelude::ex_info(self, a),
            Primitive::Throw => crate::prelude::throw(self, a),
            Primitive::Apply => crate::prelude::apply(self, a),
            Primitive::MapOver => crate::prelude::map(self, a),
            Primitive::IsNil => crate::prelude::is_nil(self, a),
            Primitive::IsTrue => crate::prelude::is_true(self, a),
            Primitive::IsFalse => crate::prelude::is_false(self, a),
            Primitive::IsSymbol => crate::prelude::is_symbol(self, a),
            Primitive::Symbol => crate::prelude::to_symbol(self, a),
            Primitive::Keyword => crate::prelude::to_keyword(self, a),
            Primitive::IsKeyword => crate::prelude::is_keyword(self, a),
            Primitive::Vector => crate::prelude::to_vector(self, a),
            Primitive::IsVector => crate::prelude::is_vector(self, a),
            Primitive::IsSequential => crate::prelude::is_sequential(self, a),
            Primitive::HashMap => crate::prelude::to_map(self, a),
            Primitive::IsMap => crate::prelude::is_map(self, a),
            Primitive::ToSet => crate::prelude::to_set(self, a),
            Primitive::IsSet => crate::prelude::is_set(self, a),
            Primitive::Assoc => crate::prelude::assoc(self, a),
            Primitive::Dissoc => crate::prelude::dissoc(self, a),
            Primitive::Get => crate::prelude::get(self, a),
            Primitive::Contains => crate::prelude::does_contain(self, a),
            Primitive::Keys => crate::prelude::to_keys(self, a),
            Primitive::Vals => crate::prelude::to_vals(self, a),
            Primitive::Last => crate::prelude::last(self, a),
            Primitive::IsString => crate::prelude::is_string(self, a),
            Primitive::IsNumber => crate::prelude::is_number(self, a),
            Primitive::IsFn => crate::prelude::is_fn(self, a),
            Primitive::Conj => crate::prelude::conj(self, a),
            Primitive::IsMacro => crate::prelude::is_macro(self, a),
            Primitive::TimeMs => crate::prelude::time_in_millis(self, a),
            Primitive::ToSeq => crate::prelude::to_seq(self, a),
            Primitive::Readline => crate::prelude::readline(self, a),
            Primitive::Meta => crate::prelude::to_meta(self, a),
            Primitive::WithMeta => crate::prelude::with_meta(self, a),
            Primitive::Host(id) => crate::prelude::host_call(self, id, a),
        }
    }
}

/// Resolved captures are as many as their names.
pub proof fn lemma_capture_count(scopes: Seq<Frame>, names: Seq<Seq<char>>, values: Seq<Datum>)
    ensures
        resolve_captures(scopes, names, values) matches Ok(resolved) ==> resolved.len()
            == names.len(),
{
    if values.len() != names.len() {
        lemma_capture_values_count(scopes, names, names.len());
    }
}

/// The values of the first `n` names are `n`.
pub proof fn lemma_capture_values_count(scopes: Seq<Frame>, names: Seq<Seq<char>>, n: nat)
    requires
        n <= names.len(),
    ensures
        capture_values(scopes, names, n) matches Ok(resolved) ==> resolved.len() == n,
    decreases n,
{
    if n > 0 {
        lemma_capture_values_count(scopes, names, (n - 1) as nat);
    }
}

} // verus!
