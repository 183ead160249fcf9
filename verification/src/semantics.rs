//! What evaluation means: for a state, a form and a limit on nesting, the
//! state and the value or error that evaluating the form leaves.
//!
//! `fuel` bounds how deep evaluation may nest; a `loop*` may iterate
//! `steps` times. Where either is used up the result is the error
//! `BudgetSpent`.
use crate::bindings::{mentions_run, parse_let_spec};
use crate::errors::{failure_text, Failure};
use crate::maps::{adjoin_all, assoc_all, is_thrown, marked};
use crate::params::{parameter_key, parameter_level};
use crate::prelude_spec::{
    assoc_spec, column_spec, compare_spec, concat_spec, conj_spec, cons_spec, count_spec,
    dissoc_spec, divide_spec, does_contain_spec, end_spec, equal_spec, ex_info_spec, get_spec,
    incorrect_argument, is_empty_spec, items_of, list_spec, multiply_spec, nth_spec, plus_spec,
    predicate_spec, read_string_spec, rest_spec, spaced, spaced_spec, subtract_spec, throw_spec,
    to_keyword_spec, to_map_spec, to_seq_spec, to_set_spec, to_str_spec, to_symbol_spec,
    to_vector_spec, vec_spec, wrong_arity, Comparison, End, Kind,
};
use crate::printer::print;
use crate::quasiquote::{is_sym, quasiquote, sym};
use crate::value::{Datum, Lambda, Primitive};
use crate::world::{Wish, 
    atom_fresh, atom_update, atom_value, bind, deref_var, emit, empty_frame, enter_scope, fail,
    frame_get, frame_put, intern_in, leave_scope, ok, place, resolve_symbol,
    resolve_symbol_to_var, resolve_var, scopes_get, unintern, var_fresh, var_update, var_value,
    with_scopes, Frame, Outcome, World,
};
use vstd::prelude::*;

verus! {

/// What evaluating a run of forms leaves.
pub struct Many {
    pub world: World,
    pub result: Result<Seq<Datum>, Failure>,
}

/// The state of an analysis: the scopes that map names to what replaces
/// them, and for each lambda under analysis the names it captures.
pub struct Tracks {
    pub scopes: Seq<Frame>,
    pub captures: Seq<Seq<Seq<char>>>,
}

/// What analyzing a form leaves.
pub struct Analysis {
    pub world: World,
    pub tracks: Tracks,
    pub result: Result<Datum, Failure>,
}

/// What analyzing a run of forms leaves.
pub struct AnalysisMany {
    pub world: World,
    pub tracks: Tracks,
    pub result: Result<Seq<Datum>, Failure>,
}

/// How often a `loop*` may iterate.
pub open spec fn loop_limit() -> nat {
    usize::MAX as nat
}

/// The identifier of an unqualified symbol.
pub open spec fn plain_symbol(d: Datum) -> Option<Seq<char>> {
    match d {
        Datum::Symbol(s, None) => Some(s),
        _ => None,
    }
}

/// The forms after the head of a list; none for a list without head.
pub open spec fn rest(items: Seq<Datum>) -> Seq<Datum> {
    if items.len() > 0 {
        items.skip(1)
    } else {
        Seq::empty()
    }
}

/// The list failure with a message.
pub open spec fn failure(message: Seq<char>) -> Failure {
    Failure::ListFailure(message)
}

/// The list failure whose message is a prefix and then the text of an
/// error.
pub open spec fn wrapped(prefix: Seq<char>, e: Failure) -> Failure {
    Failure::ListFailure(prefix + failure_text(e))
}

/// The values of captured names: the values that a closure holds where it
/// holds one for each name, the values that the scopes give the names
/// otherwise.
pub open spec fn resolve_captures(scopes: Seq<Frame>, names: Seq<Seq<char>>, values: Seq<Datum>)
    -> Result<Seq<Datum>, Failure> {
    if values.len() == names.len() {
        Ok(values)
    } else {
        capture_values(scopes, names, names.len())
    }
}

/// The values that the scopes give the first `n` names.
pub open spec fn capture_values(scopes: Seq<Frame>, names: Seq<Seq<char>>, n: nat) -> Result<
    Seq<Datum>,
    Failure,
>
    decreases n,
{
    if n == 0 || n > names.len() {
        Ok(Seq::empty())
    } else {
        match capture_values(scopes, names, (n - 1) as nat) {
            Ok(front) => match scopes_get(scopes, names[n - 1]) {
                Some(v) => Ok(front.push(v)),
                None => Err(Failure::UnableToResolveSymbolToValue(names[n - 1])),
            },
            Err(e) => Err(e),
        }
    }
}

/// A closure with its captures resolved; any other value as it is.
pub open spec fn closed_over(w: World, d: Datum) -> Result<Datum, Failure> {
    match d {
        Datum::FnWithCaptures(f, names, values) => match resolve_captures(
            w.scopes,
            names,
            values,
        ) {
            Ok(resolved) => Ok(Datum::FnWithCaptures(f, names, resolved)),
            Err(e) => Err(e),
        },
        other => Ok(other),
    }
}

/// The state with the first `n` names bound, in order, to the values at
/// their places.
pub open spec fn bind_names(w: World, names: Seq<Seq<char>>, values: Seq<Datum>, n: nat) -> World
    decreases n,
{
    if n == 0 || n > names.len() || n > values.len() {
        w
    } else {
        bind(bind_names(w, names, values, (n - 1) as nat), names[n - 1], values[n - 1])
    }
}

/// The state with a new scope that holds the captures of a closure, or the
/// error of a closure whose captures are not resolved.
pub open spec fn extend_from_captures(w: World, names: Seq<Seq<char>>, values: Seq<Datum>) -> (
    World,
    Option<Failure>,
) {
    if values.len() == names.len() {
        (bind_names(enter_scope(w), names, values, names.len()), None)
    } else {
        (
            w,
            Some(
                Failure::MissingCapturedValue(
                    if names.len() > 0 {
                        names[0]
                    } else {
                        Seq::empty()
                    },
                ),
            ),
        )
    }
}

/// The state with a new scope that holds the captures of a closure, which
/// are resolved from the scopes first where the closure does not hold them
/// yet; or the error of a capture that no scope binds.
pub open spec fn extend_resolved(w: World, names: Seq<Seq<char>>, values: Seq<Datum>) -> (
    World,
    Option<Failure>,
) {
    match resolve_captures(w.scopes, names, values) {
        Ok(resolved) => (bind_names(enter_scope(w), names, resolved, names.len()), None),
        Err(e) => (w, Some(e)),
    }
}

/// The state with the first `n` operands bound under the reserved names of
/// the level.
pub open spec fn bind_operands(w: World, level: usize, args: Seq<Datum>, n: nat) -> World
    decreases n,
{
    if n == 0 || n > args.len() {
        w
    } else {
        bind(
            bind_operands(w, level, args, (n - 1) as nat),
            parameter_key((n - 1) as nat, level as nat),
            args[n - 1],
        )
    }
}

/// The state with the operands of a function bound in the innermost scope:
/// the fixed ones each under its reserved name, the remaining ones, for a
/// variadic function, as a list under the next reserved name.
pub open spec fn bind_parameters(w: World, lam: Lambda, args: Seq<Datum>) -> World {
    let fixed = bind_operands(w, lam.level, args, lam.arity as nat);
    if lam.variadic {
        bind(
            fixed,
            parameter_key(lam.arity as nat, lam.level as nat),
            Datum::List(args.skip(lam.arity as int)),
        )
    } else {
        fixed
    }
}

/// Whether a function takes that many operands.
pub open spec fn arity_fits(lam: Lambda, count: nat) -> bool {
    if lam.variadic {
        count >= lam.arity
    } else {
        count == lam.arity
    }
}

/// The value of a form.
pub open spec fn eval(w: World, form: Datum, fuel: nat) -> Outcome
    decreases fuel, 0nat, 0nat,
{
    if fuel == 0 {
        fail(w, Failure::BudgetSpent)
    } else {
        let f = (fuel - 1) as nat;
        match form {
            Datum::Symbol(id, ns) => Outcome { world: w, result: resolve_symbol(w, id, ns) },
            Datum::List(items) => eval_list(w, items, f),
            Datum::Vector(items) => {
                let r = eval_run(w, items, items.len(), f);
                match r.result {
                    Ok(values) => ok(r.world, Datum::Vector(values)),
                    Err(e) => fail(r.world, e),
                }
            },
            Datum::HashMap(items) => {
                let r = eval_run(w, items, items.len(), f);
                match r.result {
                    Ok(values) => ok(
                        r.world,
                        Datum::HashMap(
                            assoc_all(
                                Seq::empty(),
                                values,
                                (values.len() - values.len() % 2) as nat,
                            ),
                        ),
                    ),
                    Err(e) => fail(r.world, e),
                }
            },
            Datum::HashSet(items) => {
                let r = eval_run(w, items, items.len(), f);
                match r.result {
                    Ok(values) => ok(
                        r.world,
                        Datum::HashSet(adjoin_all(Seq::empty(), values, values.len())),
                    ),
                    Err(e) => fail(r.world, e),
                }
            },
            Datum::Var(_, _, _) => ok(w, deref_var(w, form)),
            Datum::FnWithCaptures(_, _, _) => Outcome { world: w, result: closed_over(w, form) },
            other => ok(w, other),
        }
    }
}

/// The values of the first `n` forms of a run, evaluated in order.
pub open spec fn eval_run(w: World, items: Seq<Datum>, n: nat, fuel: nat) -> Many
    decreases fuel, 10nat, n,
{
    if n == 0 || n > items.len() {
        Many { world: w, result: Ok(Seq::empty()) }
    } else {
        let front = eval_run(w, items, (n - 1) as nat, fuel);
        match front.result {
            Ok(values) => {
                let o = eval(front.world, items[n - 1], fuel);
                match o.result {
                    Ok(v) => Many { world: o.world, result: Ok(values.push(v)) },
                    Err(e) => Many { world: o.world, result: Err(e) },
                }
            },
            Err(e) => front,
        }
    }
}

/// The value of the forms from place `i` on, evaluated in order, where the
/// forms before it left `last`: the value of the last form, or the first
/// exception in flight, or the first error.
pub open spec fn do_from(w: World, items: Seq<Datum>, i: int, last: Datum, fuel: nat) -> Outcome
    decreases fuel, 10nat, items.len() - i,
{
    if i < 0 || i >= items.len() {
        ok(w, last)
    } else {
        let o = eval(w, items[i], fuel);
        match o.result {
            Ok(v) => if is_thrown(v) {
                o
            } else {
                do_from(o.world, items, i + 1, v, fuel)
            },
            Err(e) => o,
        }
    }
}

/// The value of a body: `nil` for an empty one.
pub open spec fn eval_do(w: World, items: Seq<Datum>, fuel: nat) -> Outcome {
    do_from(w, items, 0, Datum::Nil, fuel)
}

/// The value of a function applied to operands that are values already.
pub open spec fn apply_lambda(w: World, lam: Lambda, args: Seq<Datum>, fuel: nat) -> Outcome
    decreases fuel, 20nat, 0nat,
{
    if !arity_fits(lam, args.len()) {
        fail(w, failure("could not apply `fn*`: incorrect arity"@))
    } else {
        let o = do_from(bind_parameters(enter_scope(w), lam, args), lam.body, 0, Datum::Nil, fuel);
        match o.result {
            Ok(v) => Outcome { world: leave_scope(o.world), result: closed_over(o.world, v) },
            Err(e) => fail(leave_scope(o.world), e),
        }
    }
}

/// The value of applying something that can be applied to operands that
/// are values already.
pub open spec fn invoke(w: World, callee: Datum, args: Seq<Datum>, fuel: nat) -> Outcome
    decreases fuel, 45nat, 0nat,
{
    match callee {
        Datum::Fn(lam) => apply_lambda(w, lam, args, fuel),
        Datum::FnWithCaptures(lam, names, values) => {
            let (w1, e) = extend_from_captures(w, names, values);
            match e {
                Some(e) => fail(w1, e),
                None => {
                    let o = apply_lambda(w1, lam, args, fuel);
                    Outcome { world: leave_scope(o.world), result: o.result }
                },
            }
        },
        Datum::Primitive(p) => call_primitive(w, p, args, fuel),
        _ => fail(w, incorrect_argument()),
    }
}

/// The expansion of a list whose head names a macro; nothing for any other
/// list.
pub open spec fn macro_expansion(w: World, items: Seq<Datum>, fuel: nat) -> Option<Outcome>
    decreases fuel, 40nat, 0nat,
{
    if items.len() == 0 {
        None
    } else {
        match macro_of(w, items[0]) {
            Some(lam) => Some(apply_macro(w, lam, items, fuel)),
            None => None,
        }
    }
}

/// The macro that the head of a list names.
pub open spec fn macro_of(w: World, head: Datum) -> Option<Lambda> {
    match head {
        Datum::Symbol(id, ns) => match resolve_symbol(w, id, ns) {
            Ok(Datum::Macro(lam)) => Some(lam),
            _ => None,
        },
        Datum::Var(cell, _, _) => match var_value(w, cell) {
            Some(Datum::Macro(lam)) => Some(lam),
            _ => None,
        },
        _ => None,
    }
}

/// The full expansion of a macro call: the macro applied to the forms
/// after the head, unevaluated, and the result expanded again while its
/// head names a macro.
pub open spec fn apply_macro(w: World, lam: Lambda, items: Seq<Datum>, fuel: nat) -> Outcome
    decreases fuel, 30nat, 0nat,
{
    if items.len() == 0 {
        fail(w, failure("could not apply macro"@))
    } else {
        let o = apply_lambda(w, lam, items.skip(1), fuel);
        match o.result {
            Ok(Datum::List(forms)) => if fuel == 0 {
                fail(o.world, Failure::BudgetSpent)
            } else {
                expand_if_present(o.world, forms, (fuel - 1) as nat)
            },
            Ok(other) => o,
            Err(e) => fail(o.world, wrapped("could not apply macro: "@, e)),
        }
    }
}

/// A list expanded where its head names a macro, and as it is otherwise.
pub open spec fn expand_if_present(w: World, items: Seq<Datum>, fuel: nat) -> Outcome
    decreases fuel, 50nat, 0nat,
{
    match macro_expansion(w, items, fuel) {
        Some(o) => o,
        None => ok(w, Datum::List(items)),
    }
}

/// The value of a list.
pub open spec fn eval_list(w: World, items: Seq<Datum>, fuel: nat) -> Outcome
    decreases fuel, 90nat, 0nat,
{
    if items.len() == 0 {
        ok(w, Datum::List(Seq::empty()))
    } else {
        match macro_expansion(w, items, fuel) {
            Some(o) => match o.result {
                Ok(x) => eval(o.world, x, fuel),
                Err(e) => o,
            },
            None => dispatch(w, items, fuel),
        }
    }
}

/// The value of a list whose head names no macro: a special form by its
/// head symbol, the application of the value of the head otherwise.
pub open spec fn dispatch(w: World, items: Seq<Datum>, fuel: nat) -> Outcome
    decreases fuel, 80nat, 0nat,
{
    let head = if items.len() > 0 {
        items[0]
    } else {
        Datum::Nil
    };
    if items.len() == 0 {
        ok(w, Datum::List(Seq::empty()))
    } else if is_sym(head, "def!"@) {
        eval_def(w, items, fuel)
    } else if is_sym(head, "var"@) {
        eval_var(w, items)
    } else if is_sym(head, "let*"@) {
        eval_let(w, items, fuel)
    } else if is_sym(head, "loop*"@) {
        eval_loop(w, items, fuel)
    } else if is_sym(head, "recur"@) {
        eval_recur(w, items, fuel)
    } else if is_sym(head, "if"@) {
        eval_if(w, items, fuel)
    } else if is_sym(head, "do"@) {
        eval_do_form(w, items, fuel)
    } else if is_sym(head, "fn*"@) {
        eval_fn(w, items, fuel)
    } else if is_sym(head, "quote"@) {
        eval_quote(w, items)
    } else if is_sym(head, "quasiquote"@) {
        eval_quasiquote(w, items, fuel)
    } else if is_sym(head, "defmacro!"@) {
        eval_defmacro(w, items, fuel)
    } else if is_sym(head, "macroexpand"@) {
        eval_macroexpand(w, items, fuel)
    } else if is_sym(head, "try*"@) {
        eval_try(w, items, fuel)
    } else {
        let o = eval(w, head, fuel);
        match o.result {
            Ok(Datum::Fn(lam)) => apply_fn(o.world, lam, items, fuel),
            Ok(Datum::FnWithCaptures(lam, names, values)) => {
                let (w1, e) = extend_resolved(o.world, names, values);
                match e {
                    Some(e) => fail(w1, e),
                    None => {
                        let r = apply_fn(w1, lam, items, fuel);
                        Outcome { world: leave_scope(r.world), result: r.result }
                    },
                }
            },
            Ok(Datum::Primitive(p)) => apply_primitive(o.world, p, items, fuel),
            Ok(v) => fail(o.world, Failure::CannotInvoke(v)),
            Err(e) => o,
        }
    }
}

/// The value of a function applied to the forms after the head of a list:
/// the forms are evaluated in order, then the function is applied.
pub open spec fn apply_fn(w: World, lam: Lambda, items: Seq<Datum>, fuel: nat) -> Outcome
    decreases fuel, 65nat, 0nat,
{
    if items.len() == 0 {
        fail(w, failure("could not apply `fn*`"@))
    } else {
        let args = items.skip(1);
        let r = eval_run(w, args, args.len(), fuel);
        match r.result {
            Ok(values) => apply_lambda(r.world, lam, values, fuel),
            Err(e) => fail(r.world, wrapped("could not apply `fn*`: "@, e)),
        }
    }
}

/// The value of a primitive applied to the forms after the head of a list.
pub open spec fn apply_primitive(w: World, p: Primitive, items: Seq<Datum>, fuel: nat) -> Outcome
    decreases fuel, 65nat, 0nat,
{
    let args = rest(items);
    let r = eval_run(w, args, args.len(), fuel);
    match r.result {
        Ok(values) => call_primitive(r.world, p, values, fuel),
        Err(e) => fail(r.world, e),
    }
}

/// `(def! symbol form)`: the var of the symbol, bound to the value of the
/// form. The var is there, unbound, while the form is evaluated; where the
/// form fails, a var that was made for it is taken out again.
pub open spec fn eval_def(w: World, items: Seq<Datum>, fuel: nat) -> Outcome
    decreases fuel, 70nat, 0nat,
{
    if items.len() >= 2 && plain_symbol(items[1]) is Some {
        let id = plain_symbol(items[1])->0;
        if items.len() >= 3 {
            match resolve_var(w, id, w.current_namespace) {
                Ok(var) => define(w, var, true, id, items[2], fuel),
                Err(Failure::MissingVar(_, _)) => {
                    let (w1, r) = intern_in(w, w.current_namespace, id, None);
                    match r {
                        Ok(var) => define(w1, var, false, id, items[2], fuel),
                        Err(e) => fail(w1, e),
                    }
                },
                Err(e) => fail(w, e),
            }
        } else {
            let (w1, r) = intern_in(w, w.current_namespace, id, None);
            Outcome { world: w1, result: r }
        }
    } else {
        fail(w, failure("could not evaluate `def!`"@))
    }
}

/// The var bound to the value of a form, or the error of the form.
pub open spec fn define(
    w: World,
    var: Datum,
    existed: bool,
    id: Seq<char>,
    form: Datum,
    fuel: nat,
) -> Outcome
    decreases fuel, 60nat, 0nat,
{
    let o = eval(w, form, fuel);
    match o.result {
        Ok(value) => match var {
            Datum::Var(cell, _, _) => ok(var_update(o.world, cell, Some(value)), var),
            _ => ok(o.world, var),
        },
        Err(e) => fail(
            if existed {
                o.world
            } else {
                unintern(o.world, id)
            },
            wrapped("could not evaluate `def!`: "@, e),
        ),
    }
}

/// `(var symbol)`: the var of a symbol, not its value.
pub open spec fn eval_var(w: World, items: Seq<Datum>) -> Outcome {
    if items.len() >= 2 && items[1] is Symbol {
        let id = items[1]->Symbol_0;
        let ns = items[1]->Symbol_1;
        Outcome {
            world: w,
            result: resolve_var(
                w,
                id,
                match ns {
                    Some(n) => n,
                    None => w.current_namespace,
                },
            ),
        }
    } else {
        fail(w, failure("could not evaluate `var`"@))
    }
}

/// The state with, for each of the first `n` mentioned names in order, a
/// new unbound var bound to the name in the innermost scope.
pub open spec fn declare(w: World, mentioned: Seq<Seq<char>>, n: nat) -> World
    decreases n,
{
    if n == 0 || n > mentioned.len() {
        w
    } else {
        let before = declare(w, mentioned, (n - 1) as nat);
        bind(
            var_fresh(before, None),
            mentioned[n - 1],
            Datum::Var(before.vars.len() as usize, Seq::empty(), mentioned[n - 1]),
        )
    }
}

/// The state with a name given a value: the var that the scopes hold under
/// the name takes the value; without such a var the name is bound in the
/// innermost scope.
pub open spec fn assign(w: World, name: Seq<char>, value: Datum) -> World {
    match scopes_get(w.scopes, name) {
        Some(Datum::Var(cell, _, _)) => var_update(w, cell, Some(value)),
        _ => bind(w, name, value),
    }
}

/// The state after evaluating and assigning the bindings from place `i`
/// on, or the first error.
pub open spec fn let_bind(w: World, names: Seq<Seq<char>>, forms: Seq<Datum>, i: int, fuel: nat)
    -> (World, Option<Failure>)
    decreases fuel, 10nat, names.len() - i,
{
    if i < 0 || i >= names.len() || i >= forms.len() {
        (w, None)
    } else {
        let o = eval(w, forms[i], fuel);
        match o.result {
            Ok(value) => let_bind(assign(o.world, names[i], value), names, forms, i + 1, fuel),
            Err(e) => (o.world, Some(e)),
        }
    }
}

/// `(let* [name form ...] body...)`: the value of the body in a new scope
/// that binds the names. A name that the value forms mention is declared
/// before any of them is evaluated.
pub open spec fn eval_let(w: World, items: Seq<Datum>, fuel: nat) -> Outcome
    decreases fuel, 72nat, 0nat,
{
    match parse_let_spec(rest(items)) {
        Err(e) => fail(w, e),
        Ok(((names, forms), body)) => {
            let mentioned = mentions_run(forms, forms.len(), names);
            let w1 = declare(enter_scope(w), mentioned, mentioned.len());
            let (w2, e) = let_bind(w1, names, forms, 0, fuel);
            match e {
                Some(e) => fail(leave_scope(w2), e),
                None => {
                    let o = do_from(w2, body, 0, Datum::Nil, fuel);
                    Outcome { world: leave_scope(o.world), result: o.result }
                },
            }
        },
    }
}

/// The state after evaluating and binding the pairs of a `loop*` from pair
/// `i` on, with the names of the pairs, or the first error.
pub open spec fn loop_bind(w: World, elems: Seq<Datum>, i: int, keys: Seq<Seq<char>>, fuel: nat)
    -> (World, Result<Seq<Seq<char>>, Failure>)
    decreases fuel, 10nat, elems.len() - 2 * i,
{
    if i < 0 || 2 * i + 1 >= elems.len() {
        (w, Ok(keys))
    } else {
        match elems[2 * i] {
            Datum::Symbol(s, None) => {
                let o = eval(w, elems[2 * i + 1], fuel);
                match o.result {
                    Ok(value) => loop_bind(bind(o.world, s, value), elems, i + 1, keys.push(s), fuel),
                    Err(e) => (o.world, Err(e)),
                }
            },
            _ => (w, Err(failure("could not evaluate `loop*`"@))),
        }
    }
}

/// The value of the body of a `loop*`, evaluated again with the names
/// bound anew for as long as it gives a `recur`.
pub open spec fn loop_iterate(
    w: World,
    keys: Seq<Seq<char>>,
    body: Seq<Datum>,
    fuel: nat,
    steps: nat,
) -> Outcome
    decreases fuel, 25nat, steps,
{
    let o = do_from(w, body, 0, Datum::Nil, fuel);
    match o.result {
        Ok(Datum::Recur(next)) => if next.len() != keys.len() {
            fail(
                o.world,
                failure("could not evaluate `loop*`: recur with incorrect number of bindings"@),
            )
        } else if steps == 0 {
            fail(o.world, Failure::BudgetSpent)
        } else {
            loop_iterate(
                bind_names(o.world, keys, next, keys.len()),
                keys,
                body,
                fuel,
                (steps - 1) as nat,
            )
        },
        _ => o,
    }
}

/// `(loop* [name form ...] body...)`.
pub open spec fn eval_loop(w: World, items: Seq<Datum>, fuel: nat) -> Outcome
    decreases fuel, 72nat, 0nat,
{
    if items.len() >= 2 && items[1] is Vector && items[1]->Vector_0.len() % 2 == 0 {
        let elems = items[1]->Vector_0;
        let body = items.skip(2);
        if body.len() == 0 {
            ok(w, Datum::Nil)
        } else {
            let (w1, keys) = loop_bind(enter_scope(w), elems, 0, Seq::empty(), fuel);
            match keys {
                Ok(keys) => {
                    let o = loop_iterate(w1, keys, body, fuel, loop_limit());
                    Outcome { world: leave_scope(o.world), result: o.result }
                },
                Err(e) => fail(leave_scope(w1), e),
            }
        }
    } else {
        fail(w, failure("could not evaluate `loop*`"@))
    }
}

/// `(recur form...)`: the values of the forms, marked for the enclosing
/// `loop*`.
pub open spec fn eval_recur(w: World, items: Seq<Datum>, fuel: nat) -> Outcome
    decreases fuel, 72nat, 0nat,
{
    if items.len() == 0 {
        fail(w, failure("could not evaluate `recur`"@))
    } else {
        let args = items.skip(1);
        let r = eval_run(w, args, args.len(), fuel);
        match r.result {
            Ok(values) => ok(r.world, Datum::Recur(values)),
            Err(e) => fail(r.world, e),
        }
    }
}

/// `(do form...)`: the value of the forms as a body.
pub open spec fn eval_do_form(w: World, items: Seq<Datum>, fuel: nat) -> Outcome
    decreases fuel, 72nat, 0nat,
{
    if items.len() == 0 {
        fail(w, failure("could not evaluate `do`"@))
    } else {
        do_from(w, items.skip(1), 0, Datum::Nil, fuel)
    }
}

/// Whether a value counts as false: `nil` and `false` do, nothing else.
pub open spec fn falsey(d: Datum) -> bool {
    d is Nil || d == Datum::Bool(false)
}

/// `(if predicate consequent alternate?)`.
pub open spec fn eval_if(w: World, items: Seq<Datum>, fuel: nat) -> Outcome
    decreases fuel, 72nat, 0nat,
{
    if items.len() >= 3 {
        let o = eval(w, items[1], fuel);
        match o.result {
            Ok(p) => if !falsey(p) {
                eval(o.world, items[2], fuel)
            } else if items.len() >= 4 {
                eval(o.world, items[3], fuel)
            } else {
                ok(o.world, Datum::Nil)
            },
            Err(e) => o,
        }
    } else {
        fail(w, failure("could not evaluate `if`"@))
    }
}

/// `(quote form)`: the form, unevaluated.
pub open spec fn eval_quote(w: World, items: Seq<Datum>) -> Outcome {
    if items.len() == 2 {
        ok(w, items[1])
    } else {
        fail(w, failure("could not evaluate `quote`"@))
    }
}

/// `(quasiquote form)`: the value of the expansion of the form.
pub open spec fn eval_quasiquote(w: World, items: Seq<Datum>, fuel: nat) -> Outcome
    decreases fuel, 72nat, 0nat,
{
    if items.len() >= 2 {
        match quasiquote(items[1]) {
            Ok(x) => eval(w, x, fuel),
            Err(e) => fail(w, e),
        }
    } else {
        fail(w, failure("could not evaluate `quasiquote`"@))
    }
}

/// `(defmacro! symbol form)`: as `def!`, and the function that the var then
/// holds becomes a macro. A var that holds anything else is taken out.
pub open spec fn eval_defmacro(w: World, items: Seq<Datum>, fuel: nat) -> Outcome
    decreases fuel, 75nat, 0nat,
{
    let o = eval_def(w, items, fuel);
    match o.result {
        Ok(Datum::Var(cell, ns, id)) => match var_value(o.world, cell) {
            Some(Datum::Fn(lam)) => ok(
                var_update(o.world, cell, Some(Datum::Macro(lam))),
                Datum::Var(cell, ns, id),
            ),
            _ => fail(
                unintern(o.world, id),
                failure("could not evaluate `defmacro!`: body must be `fn*` without captures"@),
            ),
        },
        Ok(_) => fail(
            o.world,
            failure("could not evaluate `defmacro!`: body must be `fn*` without captures"@),
        ),
        Err(e) => fail(o.world, wrapped("could not evaluate `defmacro!`: "@, e)),
    }
}

/// `(macroexpand form)`: the value of the form, expanded where it is a
/// list whose head names a macro.
pub open spec fn eval_macroexpand(w: World, items: Seq<Datum>, fuel: nat) -> Outcome
    decreases fuel, 72nat, 0nat,
{
    if items.len() == 0 {
        fail(w, Failure::WrongArity(1, 0))
    } else if items.len() != 2 {
        fail(w, Failure::WrongArity(1, (items.len() - 1) as usize))
    } else {
        let o = eval(w, items[1], fuel);
        match o.result {
            Ok(Datum::List(elems)) => expand_if_present(o.world, elems, fuel),
            _ => o,
        }
    }
}

/// `(fn* [parameter...] body...)`: the analyzed function.
pub open spec fn eval_fn(w: World, items: Seq<Datum>, fuel: nat) -> Outcome
    decreases fuel, 72nat, 0nat,
{
    if items.len() >= 2 && items[1] is Vector {
        let params = items[1]->Vector_0;
        let a = analyze_lambda(
            w,
            items.skip(2),
            params,
            Tracks { scopes: Seq::empty(), captures: Seq::empty() },
            0,
            fuel,
        );
        Outcome { world: a.world, result: a.result }
    } else {
        fail(w, failure("could not evaluate `fn*`"@))
    }
}

/// The handler of a `try*`: the analyzed `catch*` that the last form
/// holds, nothing where the last form is no `catch*`.
pub open spec fn catch_of(w: World, rest: Seq<Datum>, fuel: nat) -> (World, Result<Option<Datum>, Failure>)
    decreases fuel, 71nat, 0nat,
{
    if rest.len() == 0 {
        (w, Ok(None))
    } else {
        match rest[rest.len() - 1] {
            Datum::List(last) => if last.len() > 0 && is_sym(last[0], "catch*"@) {
                if last.len() >= 2 {
                    match last[1] {
                        Datum::Symbol(_, None) => {
                            let a = analyze_lambda(
                                w,
                                last.skip(2),
                                seq![last[1]],
                                Tracks { scopes: Seq::empty(), captures: Seq::empty() },
                                0,
                                fuel,
                            );
                            match a.result {
                                Ok(handler) => (a.world, Ok(Some(handler))),
                                Err(e) => (a.world, Err(e)),
                            }
                        },
                        _ => (w, Err(failure("could not evaluate `catch*`"@))),
                    }
                } else {
                    (w, Ok(None))
                }
            } else {
                (w, Ok(None))
            },
            Datum::Fn(_) => (w, Ok(Some(rest[rest.len() - 1]))),
            Datum::FnWithCaptures(_, _, _) => (w, Ok(Some(rest[rest.len() - 1]))),
            _ => (w, Ok(None)),
        }
    }
}

/// The value of a handler's body with the exception, taken out of flight,
/// bound to the handler's parameter.
pub open spec fn handle(w: World, handler: Datum, thrown: Datum, fuel: nat) -> Outcome
    decreases fuel, 71nat, 0nat,
{
    match handler {
        Datum::Fn(lam) => {
            let w1 = bind(
                enter_scope(w),
                parameter_key(0, lam.level as nat),
                marked(thrown, false),
            );
            let o = do_from(w1, lam.body, 0, Datum::Nil, fuel);
            Outcome { world: leave_scope(o.world), result: o.result }
        },
        Datum::FnWithCaptures(lam, names, values) => match resolve_captures(
            w.scopes,
            names,
            values,
        ) {
            Ok(resolved) => {
                let w1 = bind(
                    enter_scope(bind_names(enter_scope(w), names, resolved, names.len())),
                    parameter_key(0, lam.level as nat),
                    marked(thrown, false),
                );
                let o = do_from(w1, lam.body, 0, Datum::Nil, fuel);
                Outcome { world: leave_scope(leave_scope(o.world)), result: o.result }
            },
            Err(e) => fail(w, e),
        },
        _ => ok(w, thrown),
    }
}

/// `(try* form... (catch* symbol body...))`.
pub open spec fn eval_try(w: World, items: Seq<Datum>, fuel: nat) -> Outcome
    decreases fuel, 72nat, 0nat,
{
    if items.len() == 0 {
        fail(w, failure("could not evaluate `try*`"@))
    } else {
        let after = items.skip(1);
        let (w1, handler) = catch_of(w, after, fuel);
        match handler {
            Err(e) => fail(w1, e),
            Ok(handler) => {
                let forms = if handler is Some {
                    after.take(after.len() - 1)
                } else {
                    after
                };
                let o = do_from(w1, forms, 0, Datum::Nil, fuel);
                match o.result {
                    Ok(v) => if is_thrown(v) {
                        match handler {
                            Some(h) => handle(o.world, h, v, fuel),
                            None => o,
                        }
                    } else {
                        o
                    },
                    Err(e) => o,
                }
            },
        }
    }
}

/// The scope of the parameters of a function: each parameter name mapped
/// to the symbol of its reserved name. Gives also whether the function is
/// variadic.
pub open spec fn parameters(params: Seq<Datum>, level: usize, n: nat) -> Result<
    (Frame, bool),
    Failure,
>
    decreases n,
{
    if n == 0 || n > params.len() {
        Ok((empty_frame(), false))
    } else {
        match parameters(params, level, (n - 1) as nat) {
            Ok((frame, variadic)) => if variadic {
                Ok((frame, true))
            } else if is_sym(params[n - 1], "&"@) {
                if n + 1 == params.len() {
                    match params[n as int] {
                        Datum::Symbol(s, None) => if is_sym(params[n as int], "&"@) {
                            Err(
                                failure(
                                    "could not evaluate `fn*`: variadic binding must be a symbol"@,
                                ),
                            )
                        } else {
                            Ok(
                                (
                                    frame_put(
                                        frame,
                                        s,
                                        sym(parameter_key((n - 1) as nat, level as nat)),
                                    ),
                                    true,
                                ),
                            )
                        },
                        _ => Err(
                            failure(
                                "could not evaluate `fn*`: variadic binding must be a symbol"@,
                            ),
                        ),
                    }
                } else {
                    Err(failure("could not evaluate `fn*`: variadic binding missing after `&`"@))
                }
            } else {
                match params[n - 1] {
                    Datum::Symbol(s, None) => Ok(
                        (
                            frame_put(frame, s, sym(parameter_key((n - 1) as nat, level as nat))),
                            false,
                        ),
                    ),
                    _ => Err(
                        failure(
                            "could not evaluate `fn*`: parameters must be non-namespaced symbols"@,
                        ),
                    ),
                }
            },
            Err(e) => Err(e),
        }
    }
}

/// A stack of scopes without its innermost scope, where it has one.
pub open spec fn popped(scopes: Seq<Frame>) -> Seq<Frame> {
    if scopes.len() > 0 {
        scopes.drop_last()
    } else {
        scopes
    }
}

/// The names with one more name, where it is not among them.
pub open spec fn noted(names: Seq<Seq<char>>, name: Seq<char>) -> Seq<Seq<char>> {
    if place(names, name, 0) is Some {
        names
    } else {
        names.push(name)
    }
}

/// The capture sets with a name added to the innermost one.
pub open spec fn capture(captures: Seq<Seq<Seq<char>>>, name: Seq<char>) -> Seq<Seq<Seq<char>>> {
    if captures.len() == 0 {
        captures
    } else {
        captures.update(captures.len() - 1, noted(captures.last(), name))
    }
}

/// The capture sets with, of the first `n` names, each whose level is
/// below `level` added to the innermost one.
pub open spec fn hoist(captures: Seq<Seq<Seq<char>>>, names: Seq<Seq<char>>, level: usize, n: nat)
    -> Seq<Seq<Seq<char>>>
    decreases n,
{
    if n == 0 || n > names.len() {
        captures
    } else {
        let before = hoist(captures, names, level, (n - 1) as nat);
        match parameter_level(names[n - 1]) {
            Some(l) => if l < level {
                capture(before, names[n - 1])
            } else {
                before
            },
            None => before,
        }
    }
}

/// The analyzed function of parameters and a body, at a nesting level.
pub open spec fn analyze_lambda(
    w: World,
    body: Seq<Datum>,
    params: Seq<Datum>,
    tracks: Tracks,
    level: usize,
    fuel: nat,
) -> Analysis
    decreases fuel, 55nat, 0nat,
{
    match parameters(params, level, params.len()) {
        Err(e) => Analysis { world: w, tracks: tracks, result: Err(e) },
        Ok((frame, variadic)) => {
            let arity = if variadic {
                (frame.names.len() - 1) as usize
            } else {
                frame.names.len() as usize
            };
            let inner = Tracks { scopes: tracks.scopes.push(frame), captures: tracks.captures };
            let a = analyze_run(w, body, body.len(), inner, level, fuel);
            match a.result {
                Ok(analyzed) => Analysis {
                    world: a.world,
                    tracks: Tracks {
                        scopes: popped(a.tracks.scopes),
                        captures: a.tracks.captures,
                    },
                    result: Ok(
                        Datum::Fn(
                            Lambda { body: analyzed, arity: arity, level: level, variadic: variadic },
                        ),
                    ),
                },
                Err(e) => Analysis { world: a.world, tracks: a.tracks, result: Err(e) },
            }
        },
    }
}

/// The first `n` forms of a run, analyzed in order.
pub open spec fn analyze_run(
    w: World,
    items: Seq<Datum>,
    n: nat,
    tracks: Tracks,
    level: usize,
    fuel: nat,
) -> AnalysisMany
    decreases fuel, 10nat, n,
{
    if n == 0 || n > items.len() {
        AnalysisMany { world: w, tracks: tracks, result: Ok(Seq::empty()) }
    } else {
        let front = analyze_run(w, items, (n - 1) as nat, tracks, level, fuel);
        match front.result {
            Ok(values) => {
                let a = analyze_form(front.world, items[n - 1], front.tracks, level, fuel);
                match a.result {
                    Ok(v) => AnalysisMany {
                        world: a.world,
                        tracks: a.tracks,
                        result: Ok(values.push(v)),
                    },
                    Err(e) => AnalysisMany { world: a.world, tracks: a.tracks, result: Err(e) },
                }
            },
            Err(e) => front,
        }
    }
}

/// A form analyzed inside a function at a nesting level: parameters are
/// replaced by their reserved names, other symbols by what they resolve
/// to, and nested functions by their analyzed values.
pub open spec fn analyze_form(w: World, form: Datum, tracks: Tracks, level: usize, fuel: nat)
    -> Analysis
    decreases fuel, 0nat, 0nat,
{
    if fuel == 0 {
        Analysis { world: w, tracks: tracks, result: Err(Failure::BudgetSpent) }
    } else {
        let f = (fuel - 1) as nat;
        match form {
            Datum::Symbol(id, ns) => match scopes_get(tracks.scopes, id) {
                Some(value) => Analysis {
                    world: w,
                    tracks: Tracks {
                        scopes: tracks.scopes,
                        captures: match value {
                            Datum::Symbol(rid, None) => match parameter_level(rid) {
                                Some(l) => if l < level {
                                    capture(tracks.captures, rid)
                                } else {
                                    tracks.captures
                                },
                                None => tracks.captures,
                            },
                            _ => tracks.captures,
                        },
                    },
                    result: Ok(value),
                },
                None => Analysis {
                    world: w,
                    tracks: tracks,
                    result: resolve_symbol_to_var(w, id, ns),
                },
            },
            Datum::List(items) => if items.len() == 0 {
                Analysis { world: w, tracks: tracks, result: Ok(Datum::List(Seq::empty())) }
            } else {
                match macro_expansion(w, items, f) {
                    Some(o) => match o.result {
                        Ok(Datum::List(elems)) => analyze_list(o.world, elems, tracks, level, f),
                        Ok(other) => analyze_form(o.world, other, tracks, level, f),
                        Err(e) => Analysis { world: o.world, tracks: tracks, result: Err(e) },
                    },
                    None => analyze_list(w, items, tracks, level, f),
                }
            },
            Datum::Vector(items) => {
                let a = analyze_run(w, items, items.len(), tracks, level, f);
                Analysis {
                    world: a.world,
                    tracks: a.tracks,
                    result: match a.result {
                        Ok(values) => Ok(Datum::Vector(values)),
                        Err(e) => Err(e),
                    },
                }
            },
            Datum::HashMap(items) => {
                let a = analyze_run(w, items, items.len(), tracks, level, f);
                Analysis {
                    world: a.world,
                    tracks: a.tracks,
                    result: match a.result {
                        Ok(values) => Ok(
                            Datum::HashMap(
                                assoc_all(
                                    Seq::empty(),
                                    values,
                                    (values.len() - values.len() % 2) as nat,
                                ),
                            ),
                        ),
                        Err(e) => Err(e),
                    },
                }
            },
            Datum::HashSet(items) => {
                let a = analyze_run(w, items, items.len(), tracks, level, f);
                Analysis {
                    world: a.world,
                    tracks: a.tracks,
                    result: match a.result {
                        Ok(values) => Ok(
                            Datum::HashSet(adjoin_all(Seq::empty(), values, values.len())),
                        ),
                        Err(e) => Err(e),
                    },
                }
            },
            other => Analysis { world: w, tracks: tracks, result: Ok(other) },
        }
    }
}

/// The scope that maps the name of each of the first `n` pairs of a
/// bindings vector to itself, or nothing where a name is no unqualified
/// symbol.
pub open spec fn own_names(bindings: Seq<Datum>, n: nat) -> Option<Frame>
    decreases n,
{
    if n == 0 || 2 * n > bindings.len() {
        Some(empty_frame())
    } else {
        match own_names(bindings, (n - 1) as nat) {
            Some(frame) => match bindings[2 * n - 2] {
                Datum::Symbol(s, None) => Some(frame_put(frame, s, sym(s))),
                _ => None,
            },
            None => None,
        }
    }
}

/// The first `n` pairs of a bindings vector with their value forms
/// analyzed.
pub open spec fn analyze_pairs(
    w: World,
    bindings: Seq<Datum>,
    n: nat,
    tracks: Tracks,
    level: usize,
    fuel: nat,
) -> AnalysisMany
    decreases fuel, 10nat, n,
{
    if n == 0 || 2 * n > bindings.len() {
        AnalysisMany { world: w, tracks: tracks, result: Ok(Seq::empty()) }
    } else {
        let front = analyze_pairs(w, bindings, (n - 1) as nat, tracks, level, fuel);
        match front.result {
            Ok(values) => {
                let a = analyze_form(
                    front.world,
                    bindings[2 * n - 1],
                    front.tracks,
                    level,
                    fuel,
                );
                match a.result {
                    Ok(v) => AnalysisMany {
                        world: a.world,
                        tracks: a.tracks,
                        result: Ok(values.push(bindings[2 * n - 2]).push(v)),
                    },
                    Err(e) => AnalysisMany { world: a.world, tracks: a.tracks, result: Err(e) },
                }
            },
            Err(e) => front,
        }
    }
}

/// A nested function analyzed one level deeper: a function that captures
/// names becomes a closure over them, and the names that the enclosing
/// function must capture in turn are added to its set.
pub open spec fn analyze_nested(
    w: World,
    body: Seq<Datum>,
    params: Seq<Datum>,
    tracks: Tracks,
    level: usize,
    fuel: nat,
) -> Analysis
    decreases fuel, 58nat, 0nat,
{
    let a = analyze_lambda(
        w,
        body,
        params,
        Tracks { scopes: tracks.scopes, captures: tracks.captures.push(Seq::empty()) },
        if level < usize::MAX {
            (level + 1) as usize
        } else {
            level
        },
        fuel,
    );
    match a.result {
        Ok(analyzed) => {
            let own = if a.tracks.captures.len() > 0 {
                a.tracks.captures.last()
            } else {
                Seq::empty()
            };
            let outer = if a.tracks.captures.len() > 0 {
                a.tracks.captures.drop_last()
            } else {
                a.tracks.captures
            };
            match analyzed {
                Datum::Fn(lam) => if own.len() > 0 {
                    Analysis {
                        world: a.world,
                        tracks: Tracks {
                            scopes: a.tracks.scopes,
                            captures: hoist(outer, own, level, own.len()),
                        },
                        result: Ok(Datum::FnWithCaptures(lam, own, Seq::empty())),
                    }
                } else {
                    Analysis {
                        world: a.world,
                        tracks: Tracks { scopes: a.tracks.scopes, captures: outer },
                        result: Ok(analyzed),
                    }
                },
                _ => Analysis {
                    world: a.world,
                    tracks: Tracks { scopes: a.tracks.scopes, captures: outer },
                    result: Ok(analyzed),
                },
            }
        },
        Err(e) => a,
    }
}

/// The analysis of the forms of a list from place `from` on, after the
/// analyzed forms `done`; a scope that the head of the list opened is
/// closed at the end.
pub open spec fn analyze_tail(
    w: World,
    elems: Seq<Datum>,
    from: int,
    done: Seq<Datum>,
    tracks: Tracks,
    opened: bool,
    level: usize,
    fuel: nat,
) -> Analysis
    decreases fuel, 59nat, 0nat,
{
    let rest = if 0 <= from <= elems.len() {
        elems.skip(from)
    } else {
        Seq::empty()
    };
    let a = analyze_run(w, rest, rest.len(), tracks, level, fuel);
    match a.result {
        Ok(values) => Analysis {
            world: a.world,
            tracks: Tracks {
                scopes: if opened {
                    popped(a.tracks.scopes)
                } else {
                    a.tracks.scopes
                },
                captures: a.tracks.captures,
            },
            result: Ok(Datum::List(done + values)),
        },
        Err(e) => Analysis { world: a.world, tracks: a.tracks, result: Err(e) },
    }
}

/// The template of a `quasiquote` analyzed inside a function: what the
/// template quotes stays as it is, and what it evaluates is analyzed. The
/// operand of an `unquote` is evaluated, and so is every form that the
/// expansion leaves unquoted.
pub open spec fn analyze_template(w: World, t: Datum, tracks: Tracks, level: usize, fuel: nat)
    -> Analysis
    decreases fuel, 0nat, 0nat,
{
    if fuel == 0 {
        Analysis { world: w, tracks: tracks, result: Err(Failure::BudgetSpent) }
    } else {
        let f = (fuel - 1) as nat;
        match t {
            Datum::List(items) => if items.len() >= 2 && is_sym(items[0], "unquote"@) {
                let a = analyze_form(w, items[1], tracks, level, f);
                match a.result {
                    Ok(x) => Analysis {
                        world: a.world,
                        tracks: a.tracks,
                        result: Ok(Datum::List(items.update(1, x))),
                    },
                    Err(e) => a,
                }
            } else {
                let a = analyze_template_run(w, items, items.len(), tracks, level, f);
                Analysis {
                    world: a.world,
                    tracks: a.tracks,
                    result: match a.result {
                        Ok(values) => Ok(Datum::List(values)),
                        Err(e) => Err(e),
                    },
                }
            },
            Datum::Vector(items) => {
                let a = analyze_template_run(w, items, items.len(), tracks, level, f);
                Analysis {
                    world: a.world,
                    tracks: a.tracks,
                    result: match a.result {
                        Ok(values) => Ok(Datum::Vector(values)),
                        Err(e) => Err(e),
                    },
                }
            },
            Datum::HashMap(_) => Analysis { world: w, tracks: tracks, result: Ok(t) },
            Datum::Symbol(_, _) => Analysis { world: w, tracks: tracks, result: Ok(t) },
            other => analyze_form(w, other, tracks, level, f),
        }
    }
}

/// One item of a template analyzed: the operand of a `splice-unquote` is
/// evaluated; any other item is a template in turn.
pub open spec fn analyze_template_item(
    w: World,
    item: Datum,
    tracks: Tracks,
    level: usize,
    fuel: nat,
) -> Analysis
    decreases fuel, 5nat, 0nat,
{
    match item {
        Datum::List(inner) => if inner.len() >= 2 && is_sym(inner[0], "splice-unquote"@) {
            let a = analyze_form(w, inner[1], tracks, level, fuel);
            match a.result {
                Ok(x) => Analysis {
                    world: a.world,
                    tracks: a.tracks,
                    result: Ok(Datum::List(inner.update(1, x))),
                },
                Err(e) => a,
            }
        } else {
            analyze_template(w, item, tracks, level, fuel)
        },
        _ => analyze_template(w, item, tracks, level, fuel),
    }
}

/// The first `n` items of a template analyzed in order.
pub open spec fn analyze_template_run(
    w: World,
    items: Seq<Datum>,
    n: nat,
    tracks: Tracks,
    level: usize,
    fuel: nat,
) -> AnalysisMany
    decreases fuel, 10nat, n,
{
    if n == 0 || n > items.len() {
        AnalysisMany { world: w, tracks: tracks, result: Ok(Seq::empty()) }
    } else {
        let front = analyze_template_run(w, items, (n - 1) as nat, tracks, level, fuel);
        match front.result {
            Ok(values) => {
                let a = analyze_template_item(front.world, items[n - 1], front.tracks, level, fuel);
                match a.result {
                    Ok(v) => AnalysisMany {
                        world: a.world,
                        tracks: a.tracks,
                        result: Ok(values.push(v)),
                    },
                    Err(e) => AnalysisMany { world: a.world, tracks: a.tracks, result: Err(e) },
                }
            },
            Err(e) => front,
        }
    }
}

/// A list analyzed inside a function. `let*` and `loop*` open a scope for
/// their names, `fn*` and `catch*` are analyzed as nested functions, a
/// quoted form stays as it is, and of the template of a `quasiquote` only
/// what it evaluates is analyzed.
pub open spec fn analyze_list(w: World, elems: Seq<Datum>, tracks: Tracks, level: usize, fuel: nat)
    -> Analysis
    decreases fuel, 60nat, 0nat,
{
    if elems.len() >= 2 && (is_sym(elems[0], "let*"@) || is_sym(elems[0], "loop*"@))
        && elems[1] is Vector {
        let bindings = elems[1]->Vector_0;
        let what = if is_sym(elems[0], "let*"@) {
            "could not analyze `let*`"@
        } else {
            "could not analyze `loop*`"@
        };
        if bindings.len() % 2 != 0 {
            Analysis { world: w, tracks: tracks, result: Err(failure(what)) }
        } else {
            match own_names(bindings, bindings.len() / 2) {
                None => Analysis { world: w, tracks: tracks, result: Err(failure(what)) },
                Some(frame) => {
                    let early = is_sym(elems[0], "let*"@);
                    let start = if early {
                        Tracks { scopes: tracks.scopes.push(frame), captures: tracks.captures }
                    } else {
                        tracks
                    };
                    let a = analyze_pairs(w, bindings, bindings.len() / 2, start, level, fuel);
                    match a.result {
                        Ok(values) => analyze_tail(
                            a.world,
                            elems,
                            2,
                            seq![elems[0], Datum::Vector(values)],
                            if early {
                                a.tracks
                            } else {
                                Tracks {
                                    scopes: a.tracks.scopes.push(frame),
                                    captures: a.tracks.captures,
                                }
                            },
                            true,
                            level,
                            fuel,
                        ),
                        Err(e) => Analysis { world: a.world, tracks: a.tracks, result: Err(e) },
                    }
                },
            }
        }
    } else if elems.len() >= 2 && is_sym(elems[0], "fn*"@) && elems[1] is Vector {
        analyze_nested(w, elems.skip(2), elems[1]->Vector_0, tracks, level, fuel)
    } else if elems.len() >= 2 && is_sym(elems[0], "catch*"@) && plain_symbol(elems[1]) is Some {
        analyze_nested(w, elems.skip(2), seq![elems[1]], tracks, level, fuel)
    } else if elems.len() == 2 && is_sym(elems[0], "quote"@) {
        Analysis { world: w, tracks: tracks, result: Ok(Datum::List(elems)) }
    } else if elems.len() >= 2 && is_sym(elems[0], "quasiquote"@) {
        let a = analyze_template(w, elems[1], tracks, level, fuel);
        match a.result {
            Ok(x) => Analysis {
                world: a.world,
                tracks: a.tracks,
                result: Ok(Datum::List(elems.update(1, x))),
            },
            Err(e) => a,
        }
    } else if elems.len() >= 1 && (is_sym(elems[0], "let*"@) || is_sym(elems[0], "loop*"@)) {
        analyze_tail(w, elems, 1, seq![elems[0]], tracks, false, level, fuel)
    } else {
        analyze_tail(w, elems, 0, Seq::empty(), tracks, false, level, fuel)
    }
}

/// The values of a function applied to each item from place `n - 1` down
/// to the first, in front of the values `done` of the items after them.
pub open spec fn map_items(
    w: World,
    callee: Datum,
    items: Seq<Datum>,
    n: nat,
    done: Seq<Datum>,
    fuel: nat,
) -> Many
    decreases fuel, 41nat, n,
{
    if n == 0 || n > items.len() {
        Many { world: w, result: Ok(done) }
    } else if fuel == 0 {
        Many { world: w, result: Err(Failure::BudgetSpent) }
    } else {
        let o = match callee {
            Datum::Primitive(p) => call_primitive(w, p, seq![items[n - 1]], (fuel - 1) as nat),
            Datum::Fn(lam) => apply_lambda(w, lam, seq![items[n - 1]], (fuel - 1) as nat),
            Datum::FnWithCaptures(lam, _, _) => apply_lambda(
                w,
                lam,
                seq![items[n - 1]],
                (fuel - 1) as nat,
            ),
            _ => fail(w, incorrect_argument()),
        };
        match o.result {
            Ok(v) => map_items(o.world, callee, items, (n - 1) as nat, seq![v] + done, fuel),
            Err(e) => Many { world: o.world, result: Err(e) },
        }
    }
}

/// The value of a form evaluated with only the outermost scope.
pub open spec fn eval_globally(w: World, form: Datum, fuel: nat) -> Outcome
    decreases fuel, 5nat, 0nat,
{
    let kept = if w.scopes.len() > 0 {
        1int
    } else {
        0int
    };
    let o = eval(with_scopes(w, w.scopes.take(kept)), form, fuel);
    Outcome {
        world: with_scopes(o.world, o.world.scopes + w.scopes.skip(kept)),
        result: o.result,
    }
}

/// The values that `apply` hands to the function: the arguments between
/// the function and the last argument, then the items of the last.
pub open spec fn spread(args: Seq<Datum>) -> Option<Seq<Datum>> {
    if args.len() < 2 {
        None
    } else {
        match items_of(args[args.len() - 1]) {
            Some(xs) => Some(args.subrange(1, args.len() - 1) + xs),
            None => None,
        }
    }
}

/// Whether a value can be applied.
pub open spec fn applicable(d: Datum) -> bool {
    d is Fn || d is FnWithCaptures || d is Primitive
}

/// The value of a primitive applied to operands.
pub open spec fn call_primitive(w: World, p: Primitive, args: Seq<Datum>, fuel: nat) -> Outcome
    decreases fuel, 42nat, 0nat,
{
    match p {
        Primitive::Plus => Outcome { world: w, result: plus_spec(args) },
        Primitive::Subtract => Outcome { world: w, result: subtract_spec(args) },
        Primitive::Multiply => Outcome { world: w, result: multiply_spec(args) },
        Primitive::Divide => Outcome { world: w, result: divide_spec(args) },
        Primitive::Pr => ok(emit(w, spaced(args, args.len(), true)), Datum::Nil),
        Primitive::Prn => ok(emit(w, spaced(args, args.len(), true) + seq!['\n']), Datum::Nil),
        Primitive::PrStr => Outcome { world: w, result: spaced_spec(true, args) },
        Primitive::Print => ok(emit(w, spaced(args, args.len(), false)), Datum::Nil),
        Primitive::Println => ok(
            emit(w, spaced(args, args.len(), false) + seq!['\n']),
            Datum::Nil,
        ),
        Primitive::PrintStr => Outcome { world: w, result: spaced_spec(false, args) },
        Primitive::List => Outcome { world: w, result: list_spec(args) },
        Primitive::IsList => Outcome { world: w, result: predicate_spec(Kind::List, args) },
        Primitive::IsEmpty => Outcome { world: w, result: is_empty_spec(args) },
        Primitive::Count => Outcome { world: w, result: count_spec(args) },
        Primitive::Less => Outcome { world: w, result: compare_spec(Comparison::Less, args) },
        Primitive::LessEq => Outcome { world: w, result: compare_spec(Comparison::LessEq, args) },
        Primitive::Greater => Outcome {
            world: w,
            result: compare_spec(Comparison::Greater, args),
        },
        Primitive::GreaterEq => Outcome {
            world: w,
            result: compare_spec(Comparison::GreaterEq, args),
        },
        Primitive::Equal => Outcome { world: w, result: equal_spec(args) },
        Primitive::ReadString => Outcome { world: w, result: read_string_spec(args) },
        Primitive::Spit => spit_spec(w, args),
        Primitive::Slurp => slurp_spec(w, args),
        Primitive::Eval => if args.len() != 1 {
            fail(w, wrong_arity())
        } else {
            eval_globally(w, args[0], fuel)
        },
        Primitive::Str => Outcome { world: w, result: to_str_spec(args) },
        Primitive::Atom => if args.len() != 1 {
            fail(w, wrong_arity())
        } else {
            ok(atom_fresh(w, args[0]), Datum::Atom(w.atoms.len() as usize))
        },
        Primitive::IsAtom => Outcome { world: w, result: predicate_spec(Kind::Atom, args) },
        Primitive::Deref => Outcome { world: w, result: deref_spec(w, args) },
        Primitive::ResetAtom => if args.len() != 2 {
            fail(w, wrong_arity())
        } else {
            match args[0] {
                Datum::Atom(cell) => ok(atom_update(w, cell, args[1]), args[1]),
                _ => fail(w, incorrect_argument()),
            }
        },
        Primitive::SwapAtom => if args.len() < 2 {
            fail(w, wrong_arity())
        } else {
            match args[0] {
                Datum::Atom(cell) => if !applicable(args[1]) {
                    fail(w, incorrect_argument())
                } else if fuel == 0 {
                    fail(w, Failure::BudgetSpent)
                } else {
                    let o = invoke(
                        w,
                        args[1],
                        seq![atom_value(w, cell)] + args.skip(2),
                        (fuel - 1) as nat,
                    );
                    match o.result {
                        Ok(v) => ok(atom_update(o.world, cell, v), v),
                        Err(e) => o,
                    }
                },
                _ => fail(w, incorrect_argument()),
            }
        },
        Primitive::Cons => Outcome { world: w, result: cons_spec(args) },
        Primitive::Concat => Outcome { world: w, result: concat_spec(args) },
        Primitive::Vec => Outcome { world: w, result: vec_spec(args) },
        Primitive::Nth => Outcome { world: w, result: nth_spec(args) },
        Primitive::First => Outcome { world: w, result: end_spec(End::First, args) },
        Primitive::Rest => Outcome { world: w, result: rest_spec(args) },
        Primitive::ExInfo => Outcome { world: w, result: ex_info_spec(args) },
        Primitive::Throw => Outcome { world: w, result: throw_spec(args) },
        Primitive::Apply => if args.len() < 2 {
            fail(w, wrong_arity())
        } else {
            match spread(args) {
                Some(operands) => if fuel == 0 {
                    fail(w, Failure::BudgetSpent)
                } else {
                    invoke(w, args[0], operands, (fuel - 1) as nat)
                },
                None => fail(w, incorrect_argument()),
            }
        },
        Primitive::MapOver => if args.len() != 2 {
            fail(w, wrong_arity())
        } else {
            match items_of(args[1]) {
                None => fail(w, incorrect_argument()),
                Some(items) => match args[0] {
                    Datum::FnWithCaptures(_, names, values) => {
                        let (w1, e) = extend_from_captures(w, names, values);
                        match e {
                            Some(e) => fail(w1, e),
                            None => {
                                let r = map_items(
                                    w1,
                                    args[0],
                                    items,
                                    items.len(),
                                    Seq::empty(),
                                    fuel,
                                );
                                Outcome {
                                    world: leave_scope(r.world),
                                    result: match r.result {
                                        Ok(values) => Ok(Datum::List(values)),
                                        Err(e) => Err(e),
                                    },
                                }
                            },
                        }
                    },
                    other => if applicable(other) {
                        let r = map_items(w, other, items, items.len(), Seq::empty(), fuel);
                        Outcome {
                            world: r.world,
                            result: match r.result {
                                Ok(values) => Ok(Datum::List(values)),
                                Err(e) => Err(e),
                            },
                        }
                    } else {
                        fail(w, Failure::WrongType("Fn, FnWithCaptures, Primitive"@, other))
                    },
                },
            }
        },
        Primitive::IsNil => Outcome { world: w, result: predicate_spec(Kind::Nil, args) },
        Primitive::IsTrue => Outcome { world: w, result: predicate_spec(Kind::True, args) },
        Primitive::IsFalse => Outcome { world: w, result: predicate_spec(Kind::False, args) },
        Primitive::IsSymbol => Outcome { world: w, result: predicate_spec(Kind::Symbol, args) },
        Primitive::Symbol => Outcome { world: w, result: to_symbol_spec(args) },
        Primitive::Keyword => Outcome { world: w, result: to_keyword_spec(args) },
        Primitive::IsKeyword => Outcome { world: w, result: predicate_spec(Kind::Keyword, args) },
        Primitive::Vector => Outcome { world: w, result: to_vector_spec(args) },
        Primitive::IsVector => Outcome { world: w, result: predicate_spec(Kind::Vector, args) },
        Primitive::IsSequential => Outcome {
            world: w,
            result: predicate_spec(Kind::Sequential, args),
        },
        Primitive::HashMap => Outcome { world: w, result: to_map_spec(args) },
        Primitive::IsMap => Outcome { world: w, result: predicate_spec(Kind::HashMap, args) },
        Primitive::ToSet => Outcome { world: w, result: to_set_spec(args) },
        Primitive::IsSet => Outcome { world: w, result: predicate_spec(Kind::HashSet, args) },
        Primitive::Assoc => Outcome { world: w, result: assoc_spec(args) },
        Primitive::Dissoc => Outcome { world: w, result: dissoc_spec(args) },
        Primitive::Get => Outcome { world: w, result: get_spec(args) },
        Primitive::Contains => Outcome { world: w, result: does_contain_spec(args) },
        Primitive::Keys => Outcome { world: w, result: column_spec(true, args) },
        Primitive::Vals => Outcome { world: w, result: column_spec(false, args) },
        Primitive::Last => Outcome { world: w, result: end_spec(End::Last, args) },
        Primitive::IsString => Outcome { world: w, result: predicate_spec(Kind::String, args) },
        Primitive::IsNumber => Outcome { world: w, result: predicate_spec(Kind::Number, args) },
        Primitive::IsFn => Outcome { world: w, result: predicate_spec(Kind::Fn, args) },
        Primitive::Conj => Outcome { world: w, result: conj_spec(args) },
        Primitive::IsMacro => Outcome { world: w, result: predicate_spec(Kind::Macro, args) },
        Primitive::TimeMs => time_spec(w, args),
        Primitive::ToSeq => Outcome { world: w, result: to_seq_spec(args) },
        Primitive::Readline => readline_spec(w, args),
        Primitive::Meta => ok(w, Datum::Nil),
        Primitive::WithMeta => ok(w, Datum::Nil),
        Primitive::Host(id) => host_spec(w, id, args),
    }
}

/// `deref`: what an atom or a bound var holds.
pub open spec fn deref_spec(w: World, args: Seq<Datum>) -> Result<Datum, Failure> {
    if args.len() != 1 {
        Err(wrong_arity())
    } else {
        match args[0] {
            Datum::Atom(cell) => Ok(atom_value(w, cell)),
            Datum::Var(cell, _, _) => match var_value(w, cell) {
                Some(v) => Ok(v),
                None => Err(Failure::CannotDerefUnboundVar(args[0])),
            },
            _ => Err(incorrect_argument()),
        }
    }
}

/// `slurp`: the contents of a file that the host made readable. A file
/// that is not among them is an error, and the state says that this file
/// was wanted.
pub open spec fn slurp_spec(w: World, args: Seq<Datum>) -> Outcome {
    if args.len() != 1 {
        fail(w, wrong_arity())
    } else {
        match args[0] {
            Datum::String(path) => match frame_get(w.files, path) {
                Some(contents) => ok(w, contents),
                None => fail(
                    World { wanted: Wish::File(path), ..w },
                    Failure::IOError("file not found: "@ + path),
                ),
            },
            _ => fail(w, incorrect_argument()),
        }
    }
}

/// A procedure of the host's own: the first of the answers that the host
/// supplied; where there is none, an error that says that the call was
/// wanted, with the procedure's number and the operands.
pub open spec fn host_spec(w: World, id: usize, args: Seq<Datum>) -> Outcome {
    if w.answers.len() > 0 {
        ok(World { answers: w.answers.skip(1), ..w }, w.answers[0])
    } else {
        fail(
            World { wanted: Wish::Call(id, args), ..w },
            Failure::IOError("the host has not answered yet"@),
        )
    }
}

/// `time-ms`: the first of the times that the host supplied; where there
/// is none, the time that the host last set, or, with a host that answers
/// during the evaluation, an error that says that the time was wanted.
pub open spec fn time_spec(w: World, args: Seq<Datum>) -> Outcome {
    if args.len() != 0 {
        fail(w, wrong_arity())
    } else if w.moments.len() > 0 {
        ok(World { moments: w.moments.skip(1), ..w }, Datum::Number(w.moments[0]))
    } else if w.live {
        fail(World { wanted: Wish::Moment, ..w }, Failure::IOError("the time is not known yet"@))
    } else {
        ok(w, Datum::Number(w.clock))
    }
}

/// `spit`: the plain text of a value becomes the contents of a file, for
/// the interpreter at once and for the host when it takes what was written.
pub open spec fn spit_spec(w: World, args: Seq<Datum>) -> Outcome {
    if args.len() != 2 {
        fail(w, wrong_arity())
    } else {
        match args[0] {
            Datum::String(path) => {
                let contents = Datum::String(print(args[1], false));
                ok(
                    World {
                        files: frame_put(w.files, path, contents),
                        written: frame_put(w.written, path, contents),
                        ..w
                    },
                    Datum::Nil,
                )
            },
            _ => fail(w, incorrect_argument()),
        }
    }
}

/// `readline`: prints the prompt and gives the next line of input; at the
/// end of the input it prints a line end and gives `nil`. With a host that
/// answers during the evaluation, and whose input has not ended, a line
/// that is not there yet is an error after the prompt, and the state says
/// that a line was wanted.
pub open spec fn readline_spec(w: World, args: Seq<Datum>) -> Outcome {
    if args.len() != 1 {
        fail(w, wrong_arity())
    } else {
        match args[0] {
            Datum::String(prompt) => if w.lines.len() == 0 {
                if w.live && !w.ended {
                    fail(
                        World { wanted: Wish::Line, ..emit(w, prompt) },
                        Failure::IOError("no line of input yet"@),
                    )
                } else {
                    ok(emit(emit(w, prompt), seq!['\n']), Datum::Nil)
                }
            } else {
                ok(
                    World { lines: w.lines.skip(1), ..emit(w, prompt) },
                    Datum::String(w.lines[0]),
                )
            },
            _ => fail(w, incorrect_argument()),
        }
    }
}

/// The value of a form at the top: as `eval`, but a `recur` that no
/// `loop*` took is an error.
pub open spec fn evaluate(w: World, form: Datum, fuel: nat) -> Outcome {
    let o = eval(w, form, fuel);
    match o.result {
        Ok(Datum::Recur(_)) => fail(o.world, failure("`recur` outside of `loop*`"@)),
        _ => o,
    }
}

} // verus!
