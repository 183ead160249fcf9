//! Scopes are balanced, and atoms stay: whatever evaluating a form does,
//! and however it ends, it leaves as many lexical scopes as it found, and
//! no fewer atoms; it keeps a tidy state tidy; and an evaluation that
//! succeeds leaves what is wanted of the host as it found it.
use crate::bindings::{mentions_run, parse_let_spec};
use crate::errors::Failure;
use crate::maps::is_thrown;
use crate::prelude_spec::items_of;
use crate::quasiquote::{is_sym, quasiquote};
use crate::semantics::{
    analyze_form, analyze_lambda, analyze_list, analyze_nested, analyze_pairs, analyze_run,
    analyze_tail, applicable, apply_fn, apply_lambda, apply_macro, apply_primitive, arity_fits,
    assign, bind_names, bind_operands, bind_parameters, call_primitive, catch_of, declare,
    define, dispatch, do_from, eval, eval_def, eval_defmacro, eval_fn, eval_globally, eval_if,
    eval_let, eval_list, eval_loop, eval_run, eval_try, evaluate, expand_if_present,
    extend_from_captures, falsey, handle, invoke, let_bind, loop_bind, loop_iterate, loop_limit,
    macro_expansion, macro_of, map_items, own_names, parameters, plain_symbol, resolve_captures,
    spread, Tracks,
};
use crate::value::{Datum, Lambda, Primitive};
use crate::world::{
    atom_value, bind, enter_scope, intern_in, leave_scope, resolve_var, with_scopes, World,
};
use crate::tidy::{
    lemma_bind_names_tidy, lemma_bind_operands_tidy, lemma_bind_parameters_tidy,
    lemma_declare_tidy, lemma_tidy_everywhere, tidy,
};
use vstd::prelude::*;

verus! {

/// How many lexical scopes a state holds.
pub open spec fn depth(w: World) -> nat {
    w.scopes.len()
}

/// Binding names keeps the number of scopes of a state that has a scope.
pub proof fn lemma_bind_names_depth(w: World, names: Seq<Seq<char>>, values: Seq<Datum>, n: nat)
    requires
        depth(w) >= 1,
    ensures
        depth(bind_names(w, names, values, n)) == depth(w),
        bind_names(w, names, values, n).atoms.len() >= w.atoms.len(),
        tidy(w) ==> tidy(bind_names(w, names, values, n)),
        bind_names(w, names, values, n).wanted == w.wanted,
    decreases n,
{
    if !(n == 0 || n > names.len() || n > values.len()) {
        lemma_bind_names_depth(w, names, values, (n - 1) as nat);
    }
    if tidy(w) {
        lemma_bind_names_tidy(w, names, values, n);
    }
}

/// Binding operands keeps the number of scopes of a state that has a
/// scope.
pub proof fn lemma_bind_operands_depth(w: World, level: usize, args: Seq<Datum>, n: nat)
    requires
        depth(w) >= 1,
    ensures
        depth(bind_operands(w, level, args, n)) == depth(w),
        bind_operands(w, level, args, n).atoms.len() >= w.atoms.len(),
        tidy(w) ==> tidy(bind_operands(w, level, args, n)),
        bind_operands(w, level, args, n).wanted == w.wanted,
    decreases n,
{
    if !(n == 0 || n > args.len()) {
        lemma_bind_operands_depth(w, level, args, (n - 1) as nat);
    }
    if tidy(w) {
        lemma_bind_operands_tidy(w, level, args, n);
    }
}

/// Binding the parameters of a function keeps the number of scopes of a
/// state that has a scope.
pub proof fn lemma_bind_parameters_depth(w: World, lam: Lambda, args: Seq<Datum>)
    requires
        depth(w) >= 1,
    ensures
        depth(bind_parameters(w, lam, args)) == depth(w),
        bind_parameters(w, lam, args).atoms.len() >= w.atoms.len(),
        tidy(w) ==> tidy(bind_parameters(w, lam, args)),
        bind_parameters(w, lam, args).wanted == w.wanted,
{
    lemma_bind_operands_depth(w, lam.level, args, lam.arity as nat);
    if tidy(w) {
        lemma_bind_parameters_tidy(w, lam, args);
    }
}

/// Declaring names keeps the number of scopes of a state that has a scope.
pub proof fn lemma_declare_depth(w: World, mentioned: Seq<Seq<char>>, n: nat)
    requires
        depth(w) >= 1,
    ensures
        depth(declare(w, mentioned, n)) == depth(w),
        declare(w, mentioned, n).atoms.len() >= w.atoms.len(),
        tidy(w) ==> tidy(declare(w, mentioned, n)),
        declare(w, mentioned, n).wanted == w.wanted,
    decreases n,
{
    if !(n == 0 || n > mentioned.len()) {
        lemma_declare_depth(w, mentioned, (n - 1) as nat);
    }
    if tidy(w) {
        lemma_declare_tidy(w, mentioned, n);
    }
}

/// Opening the scope of a closure's captures adds one scope, and none where
/// it fails.
pub proof fn lemma_extend_depth(w: World, names: Seq<Seq<char>>, values: Seq<Datum>)
    ensures
        extend_from_captures(w, names, values).1 is None ==> depth(
            extend_from_captures(w, names, values).0,
        ) == depth(w) + 1,
        extend_from_captures(w, names, values).1 is Some ==> extend_from_captures(
            w,
            names,
            values,
        ).0 == w,
        extend_from_captures(w, names, values).0.atoms.len() >= w.atoms.len(),
        tidy(w) ==> tidy(extend_from_captures(w, names, values).0),
        extend_from_captures(w, names, values).0.wanted == w.wanted,
{
    lemma_tidy_everywhere();
    if values.len() == names.len() {
        lemma_bind_names_depth(enter_scope(w), names, values, names.len());
    }
}

/// Opening the scope of a closure's captures, resolved first, adds one
/// scope, and none where it fails.
pub proof fn lemma_extend_resolved_depth(w: World, names: Seq<Seq<char>>, values: Seq<Datum>)
    ensures
        crate::semantics::extend_resolved(w, names, values).1 is None ==> depth(
            crate::semantics::extend_resolved(w, names, values).0,
        ) == depth(w) + 1,
        crate::semantics::extend_resolved(w, names, values).1 is Some
            ==> crate::semantics::extend_resolved(w, names, values).0 == w,
        crate::semantics::extend_resolved(w, names, values).0.atoms.len() >= w.atoms.len(),
        tidy(w) ==> tidy(crate::semantics::extend_resolved(w, names, values).0),
        crate::semantics::extend_resolved(w, names, values).0.wanted == w.wanted,
{
    lemma_tidy_everywhere();
    match resolve_captures(w.scopes, names, values) {
        Ok(resolved) => lemma_bind_names_depth(enter_scope(w), names, resolved, names.len()),
        Err(e) => {},
    }
}

/// Evaluating a form leaves as many scopes as it found, and no fewer
/// atoms; it keeps a tidy state tidy; where it succeeds, it leaves what is
/// wanted of the host as it found it.
pub proof fn law_eval_keeps_scopes(w: World, form: Datum, fuel: nat)
    ensures
        depth(eval(w, form, fuel).world) == depth(w),
        eval(w, form, fuel).world.atoms.len() >= w.atoms.len(),
        tidy(w) ==> tidy(eval(w, form, fuel).world),
        eval(w, form, fuel).result is Ok
            ==> eval(w, form, fuel).world.wanted == w.wanted,
    decreases fuel, 0nat, 0nat,
{
    lemma_tidy_everywhere();
    if fuel > 0 {
        let f = (fuel - 1) as nat;
        match form {
            Datum::List(items) => keeps_eval_list(w, items, f),
            Datum::Vector(items) => keeps_eval_run(w, items, items.len(), f),
            Datum::HashMap(items) => keeps_eval_run(w, items, items.len(), f),
            Datum::HashSet(items) => keeps_eval_run(w, items, items.len(), f),
            _ => {},
        }
    }
}

/// Evaluating a form at the top leaves as many scopes as it found, and no
/// fewer atoms; it keeps a tidy state tidy; where it succeeds, it leaves
/// what is wanted of the host as it found it.
pub proof fn law_evaluate_keeps_scopes(w: World, form: Datum, fuel: nat)
    ensures
        depth(evaluate(w, form, fuel).world) == depth(w),
        evaluate(w, form, fuel).world.atoms.len() >= w.atoms.len(),
        tidy(w) ==> tidy(evaluate(w, form, fuel).world),
        evaluate(w, form, fuel).result is Ok
            ==> evaluate(w, form, fuel).world.wanted == w.wanted,
{
    lemma_tidy_everywhere();
    law_eval_keeps_scopes(w, form, fuel);
}

/// Evaluating a run of forms leaves as many scopes as it found,
/// and no fewer atoms.
pub proof fn keeps_eval_run(w: World, items: Seq<Datum>, n: nat, fuel: nat)
    ensures
        depth(eval_run(w, items, n, fuel).world) == depth(w),
        eval_run(w, items, n, fuel).world.atoms.len() >= w.atoms.len(),
        tidy(w) ==> tidy(eval_run(w, items, n, fuel).world),
        eval_run(w, items, n, fuel).result is Ok
            ==> eval_run(w, items, n, fuel).world.wanted == w.wanted,
    decreases fuel, 10nat, n,
{
    lemma_tidy_everywhere();
    if !(n == 0 || n > items.len()) {
        keeps_eval_run(w, items, (n - 1) as nat, fuel);
        let front = eval_run(w, items, (n - 1) as nat, fuel);
        if front.result is Ok {
            law_eval_keeps_scopes(front.world, items[n - 1], fuel);
        }
    }
}

/// Evaluating a body leaves as many scopes as it found,
/// and no fewer atoms.
pub proof fn keeps_do_from(w: World, items: Seq<Datum>, i: int, last: Datum, fuel: nat)
    ensures
        depth(do_from(w, items, i, last, fuel).world) == depth(w),
        do_from(w, items, i, last, fuel).world.atoms.len() >= w.atoms.len(),
        tidy(w) ==> tidy(do_from(w, items, i, last, fuel).world),
        do_from(w, items, i, last, fuel).result is Ok
            ==> do_from(w, items, i, last, fuel).world.wanted == w.wanted,
    decreases fuel, 10nat, items.len() - i,
{
    lemma_tidy_everywhere();
    if !(i < 0 || i >= items.len()) {
        law_eval_keeps_scopes(w, items[i], fuel);
        let o = eval(w, items[i], fuel);
        match o.result {
            Ok(v) => {
                if !is_thrown(v) {
                    keeps_do_from(o.world, items, i + 1, v, fuel);
                }
            },
            Err(e) => {},
        }
    }
}

/// Applying a function leaves as many scopes as it found,
/// and no fewer atoms.
pub proof fn keeps_apply_lambda(w: World, lam: Lambda, args: Seq<Datum>, fuel: nat)
    ensures
        depth(apply_lambda(w, lam, args, fuel).world) == depth(w),
        apply_lambda(w, lam, args, fuel).world.atoms.len() >= w.atoms.len(),
        tidy(w) ==> tidy(apply_lambda(w, lam, args, fuel).world),
        apply_lambda(w, lam, args, fuel).result is Ok
            ==> apply_lambda(w, lam, args, fuel).world.wanted == w.wanted,
    decreases fuel, 20nat, 0nat,
{
    lemma_tidy_everywhere();
    if arity_fits(lam, args.len()) {
        let entered = enter_scope(w);
        lemma_bind_parameters_depth(entered, lam, args);
        let bound = bind_parameters(entered, lam, args);
        keeps_do_from(bound, lam.body, 0, Datum::Nil, fuel);
    }
}

/// Applying what can be applied leaves as many scopes as it found,
/// and no fewer atoms.
pub proof fn keeps_invoke(w: World, callee: Datum, args: Seq<Datum>, fuel: nat)
    ensures
        depth(invoke(w, callee, args, fuel).world) == depth(w),
        invoke(w, callee, args, fuel).world.atoms.len() >= w.atoms.len(),
        tidy(w) ==> tidy(invoke(w, callee, args, fuel).world),
        invoke(w, callee, args, fuel).result is Ok
            ==> invoke(w, callee, args, fuel).world.wanted == w.wanted,
    decreases fuel, 45nat, 0nat,
{
    lemma_tidy_everywhere();
    match callee {
        Datum::Fn(lam) => keeps_apply_lambda(w, lam, args, fuel),
        Datum::FnWithCaptures(lam, names, values) => {
            lemma_extend_depth(w, names, values);
            let (w1, e) = extend_from_captures(w, names, values);
            if e is None {
                keeps_apply_lambda(w1, lam, args, fuel);
            }
        },
        Datum::Primitive(p) => keeps_call_primitive(w, p, args, fuel),
        _ => {},
    }
}

/// Expanding a macro call leaves as many scopes as it found,
/// and no fewer atoms.
pub proof fn keeps_macro_expansion(w: World, items: Seq<Datum>, fuel: nat)
    ensures
        macro_expansion(w, items, fuel) matches Some(o) ==> depth(o.world) == depth(w),
        macro_expansion(w, items, fuel) matches Some(o) ==> o.world.atoms.len() >= w.atoms.len(),
        macro_expansion(w, items, fuel) matches Some(o) ==> (tidy(w) ==> tidy(o.world)),
        macro_expansion(w, items, fuel) matches Some(o) ==> (o.result is Ok ==> o.world.wanted
            == w.wanted),
    decreases fuel, 40nat, 0nat,
{
    lemma_tidy_everywhere();
    if items.len() > 0 {
        match macro_of(w, items[0]) {
            Some(lam) => keeps_apply_macro(w, lam, items, fuel),
            None => {},
        }
    }
}

/// Applying a macro leaves as many scopes as it found,
/// and no fewer atoms.
pub proof fn keeps_apply_macro(w: World, lam: Lambda, items: Seq<Datum>, fuel: nat)
    ensures
        depth(apply_macro(w, lam, items, fuel).world) == depth(w),
        apply_macro(w, lam, items, fuel).world.atoms.len() >= w.atoms.len(),
        tidy(w) ==> tidy(apply_macro(w, lam, items, fuel).world),
        apply_macro(w, lam, items, fuel).result is Ok
            ==> apply_macro(w, lam, items, fuel).world.wanted == w.wanted,
    decreases fuel, 30nat, 0nat,
{
    lemma_tidy_everywhere();
    if items.len() > 0 {
        keeps_apply_lambda(w, lam, items.skip(1), fuel);
        let o = apply_lambda(w, lam, items.skip(1), fuel);
        match o.result {
            Ok(Datum::List(forms)) => {
                if fuel > 0 {
                    keeps_expand_if_present(o.world, forms, (fuel - 1) as nat);
                }
            },
            _ => {},
        }
    }
}

/// Expanding a list leaves as many scopes as it found,
/// and no fewer atoms.
pub proof fn keeps_expand_if_present(w: World, items: Seq<Datum>, fuel: nat)
    ensures
        depth(expand_if_present(w, items, fuel).world) == depth(w),
        expand_if_present(w, items, fuel).world.atoms.len() >= w.atoms.len(),
        tidy(w) ==> tidy(expand_if_present(w, items, fuel).world),
        expand_if_present(w, items, fuel).result is Ok
            ==> expand_if_present(w, items, fuel).world.wanted == w.wanted,
    decreases fuel, 50nat, 0nat,
{
    lemma_tidy_everywhere();
    keeps_macro_expansion(w, items, fuel);
}

/// Evaluating a list leaves as many scopes as it found,
/// and no fewer atoms.
pub proof fn keeps_eval_list(w: World, items: Seq<Datum>, fuel: nat)
    ensures
        depth(eval_list(w, items, fuel).world) == depth(w),
        eval_list(w, items, fuel).world.atoms.len() >= w.atoms.len(),
        tidy(w) ==> tidy(eval_list(w, items, fuel).world),
        eval_list(w, items, fuel).result is Ok
            ==> eval_list(w, items, fuel).world.wanted == w.wanted,
    decreases fuel, 90nat, 0nat,
{
    lemma_tidy_everywhere();
    if items.len() > 0 {
        keeps_macro_expansion(w, items, fuel);
        match macro_expansion(w, items, fuel) {
            Some(o) => match o.result {
                Ok(x) => law_eval_keeps_scopes(o.world, x, fuel),
                Err(e) => {},
            },
            None => keeps_dispatch(w, items, fuel),
        }
    }
}

/// A special form or a call leaves as many scopes as it found,
/// and no fewer atoms.
pub proof fn keeps_dispatch(w: World, items: Seq<Datum>, fuel: nat)
    ensures
        depth(dispatch(w, items, fuel).world) == depth(w),
        dispatch(w, items, fuel).world.atoms.len() >= w.atoms.len(),
        tidy(w) ==> tidy(dispatch(w, items, fuel).world),
        dispatch(w, items, fuel).result is Ok
            ==> dispatch(w, items, fuel).world.wanted == w.wanted,
    decreases fuel, 80nat, 0nat,
{
    lemma_tidy_everywhere();
    let head = if items.len() > 0 {
        items[0]
    } else {
        Datum::Nil
    };
    if items.len() == 0 {
    } else if is_sym(head, "def!"@) {
        keeps_eval_def(w, items, fuel);
    } else if is_sym(head, "var"@) {
    } else if is_sym(head, "let*"@) {
        keeps_eval_let(w, items, fuel);
    } else if is_sym(head, "loop*"@) {
        keeps_eval_loop(w, items, fuel);
    } else if is_sym(head, "recur"@) {
        keeps_eval_run(w, items.skip(1), items.skip(1).len(), fuel);
    } else if is_sym(head, "if"@) {
        keeps_eval_if(w, items, fuel);
    } else if is_sym(head, "do"@) {
        keeps_do_from(w, items.skip(1), 0, Datum::Nil, fuel);
    } else if is_sym(head, "fn*"@) {
        keeps_eval_fn(w, items, fuel);
    } else if is_sym(head, "quote"@) {
    } else if is_sym(head, "quasiquote"@) {
        if items.len() >= 2 {
            match quasiquote(items[1]) {
                Ok(x) => law_eval_keeps_scopes(w, x, fuel),
                Err(e) => {},
            }
        }
    } else if is_sym(head, "defmacro!"@) {
        keeps_eval_def(w, items, fuel);
    } else if is_sym(head, "macroexpand"@) {
        if items.len() == 2 {
            law_eval_keeps_scopes(w, items[1], fuel);
            let o = eval(w, items[1], fuel);
            match o.result {
                Ok(Datum::List(elems)) => keeps_expand_if_present(o.world, elems, fuel),
                _ => {},
            }
        }
    } else if is_sym(head, "try*"@) {
        keeps_eval_try(w, items, fuel);
    } else {
        law_eval_keeps_scopes(w, head, fuel);
        let o = eval(w, head, fuel);
        match o.result {
            Ok(Datum::Fn(lam)) => keeps_apply_fn(o.world, lam, items, fuel),
            Ok(Datum::FnWithCaptures(lam, names, values)) => {
                lemma_extend_resolved_depth(o.world, names, values);
                let (w1, e) = crate::semantics::extend_resolved(o.world, names, values);
                if e is None {
                    keeps_apply_fn(w1, lam, items, fuel);
                }
            },
            Ok(Datum::Primitive(p)) => keeps_apply_primitive(o.world, p, items, fuel),
            _ => {},
        }
    }
}

/// Calling a function on forms leaves as many scopes as it found,
/// and no fewer atoms.
pub proof fn keeps_apply_fn(w: World, lam: Lambda, items: Seq<Datum>, fuel: nat)
    ensures
        depth(apply_fn(w, lam, items, fuel).world) == depth(w),
        apply_fn(w, lam, items, fuel).world.atoms.len() >= w.atoms.len(),
        tidy(w) ==> tidy(apply_fn(w, lam, items, fuel).world),
        apply_fn(w, lam, items, fuel).result is Ok
            ==> apply_fn(w, lam, items, fuel).world.wanted == w.wanted,
    decreases fuel, 65nat, 0nat,
{
    lemma_tidy_everywhere();
    let args = items.skip(1);
    keeps_eval_run(w, args, args.len(), fuel);
    let r = eval_run(w, args, args.len(), fuel);
    match r.result {
        Ok(values) => keeps_apply_lambda(r.world, lam, values, fuel),
        Err(e) => {},
    }
}

/// Calling a primitive on forms leaves as many scopes as it found,
/// and no fewer atoms.
pub proof fn keeps_apply_primitive(w: World, p: Primitive, items: Seq<Datum>, fuel: nat)
    ensures
        depth(apply_primitive(w, p, items, fuel).world) == depth(w),
        apply_primitive(w, p, items, fuel).world.atoms.len() >= w.atoms.len(),
        tidy(w) ==> tidy(apply_primitive(w, p, items, fuel).world),
        apply_primitive(w, p, items, fuel).result is Ok
            ==> apply_primitive(w, p, items, fuel).world.wanted == w.wanted,
    decreases fuel, 65nat, 0nat,
{
    lemma_tidy_everywhere();
    let args = crate::semantics::rest(items);
    keeps_eval_run(w, args, args.len(), fuel);
    let r = eval_run(w, args, args.len(), fuel);
    match r.result {
        Ok(values) => keeps_call_primitive(r.world, p, values, fuel),
        Err(e) => {},
    }
}

/// `def!` and `defmacro!` leave as many scopes as they found, and
/// no fewer atoms.
pub proof fn keeps_eval_def(w: World, items: Seq<Datum>, fuel: nat)
    ensures
        depth(eval_def(w, items, fuel).world) == depth(w),
        eval_def(w, items, fuel).world.atoms.len() >= w.atoms.len(),
        tidy(w) ==> tidy(eval_def(w, items, fuel).world),
        eval_def(w, items, fuel).result is Ok
            ==> eval_def(w, items, fuel).world.wanted == w.wanted,
        depth(eval_defmacro(w, items, fuel).world) == depth(w),
        eval_defmacro(w, items, fuel).world.atoms.len() >= w.atoms.len(),
        tidy(w) ==> tidy(eval_defmacro(w, items, fuel).world),
        eval_defmacro(w, items, fuel).result is Ok
            ==> eval_defmacro(w, items, fuel).world.wanted == w.wanted,
    decreases fuel, 70nat, 0nat,
{
    lemma_tidy_everywhere();
    if items.len() >= 2 && plain_symbol(items[1]) is Some {
        let id = plain_symbol(items[1])->0;
        if items.len() >= 3 {
            match resolve_var(w, id, w.current_namespace) {
                Ok(var) => keeps_define(w, var, true, id, items[2], fuel),
                Err(Failure::MissingVar(_, _)) => {
                    let (w1, r) = intern_in(w, w.current_namespace, id, None);
                    match r {
                        Ok(var) => keeps_define(w1, var, false, id, items[2], fuel),
                        Err(e) => {},
                    }
                },
                Err(e) => {},
            }
        }
    }
}

/// Binding a var to the value of a form leaves as many scopes as it found,
/// and no fewer atoms.
pub proof fn keeps_define(
    w: World,
    var: Datum,
    existed: bool,
    id: Seq<char>,
    form: Datum,
    fuel: nat,
)
    ensures
        depth(define(w, var, existed, id, form, fuel).world) == depth(w),
        define(w, var, existed, id, form, fuel).world.atoms.len() >= w.atoms.len(),
        tidy(w) ==> tidy(define(w, var, existed, id, form, fuel).world),
        define(w, var, existed, id, form, fuel).result is Ok
            ==> define(w, var, existed, id, form, fuel).world.wanted == w.wanted,
    decreases fuel, 60nat, 0nat,
{
    lemma_tidy_everywhere();
    law_eval_keeps_scopes(w, form, fuel);
}

/// Evaluating and assigning bindings keeps the number of scopes of a state
/// that has a scope.
pub proof fn keeps_let_bind(
    w: World,
    names: Seq<Seq<char>>,
    forms: Seq<Datum>,
    i: int,
    fuel: nat,
)
    requires
        depth(w) >= 1,
    ensures
        depth(let_bind(w, names, forms, i, fuel).0) == depth(w),
        let_bind(w, names, forms, i, fuel).0.atoms.len() >= w.atoms.len(),
        tidy(w) ==> tidy(let_bind(w, names, forms, i, fuel).0),
        let_bind(w, names, forms, i, fuel).1 is None
            ==> let_bind(w, names, forms, i, fuel).0.wanted == w.wanted,
    decreases fuel, 10nat, names.len() - i,
{
    lemma_tidy_everywhere();
    if !(i < 0 || i >= names.len() || i >= forms.len()) {
        law_eval_keeps_scopes(w, forms[i], fuel);
        let o = eval(w, forms[i], fuel);
        match o.result {
            Ok(value) => {
                keeps_let_bind(assign(o.world, names[i], value), names, forms, i + 1, fuel);
            },
            Err(e) => {},
        }
    }
}

/// `let*` leaves as many scopes as it found,
/// and no fewer atoms.
pub proof fn keeps_eval_let(w: World, items: Seq<Datum>, fuel: nat)
    ensures
        depth(eval_let(w, items, fuel).world) == depth(w),
        eval_let(w, items, fuel).world.atoms.len() >= w.atoms.len(),
        tidy(w) ==> tidy(eval_let(w, items, fuel).world),
        eval_let(w, items, fuel).result is Ok
            ==> eval_let(w, items, fuel).world.wanted == w.wanted,
    decreases fuel, 72nat, 0nat,
{
    lemma_tidy_everywhere();
    match parse_let_spec(crate::semantics::rest(items)) {
        Err(e) => {},
        Ok(((names, forms), body)) => {
            let mentioned = mentions_run(forms, forms.len(), names);
            lemma_declare_depth(enter_scope(w), mentioned, mentioned.len());
            let w1 = declare(enter_scope(w), mentioned, mentioned.len());
            keeps_let_bind(w1, names, forms, 0, fuel);
            let (w2, e) = let_bind(w1, names, forms, 0, fuel);
            if e is None {
                keeps_do_from(w2, body, 0, Datum::Nil, fuel);
            }
        },
    }
}

/// Evaluating and binding the pairs of a `loop*` keeps the number of
/// scopes of a state that has a scope.
pub proof fn keeps_loop_bind(
    w: World,
    elems: Seq<Datum>,
    i: int,
    keys: Seq<Seq<char>>,
    fuel: nat,
)
    requires
        depth(w) >= 1,
    ensures
        depth(loop_bind(w, elems, i, keys, fuel).0) == depth(w),
        loop_bind(w, elems, i, keys, fuel).0.atoms.len() >= w.atoms.len(),
        tidy(w) ==> tidy(loop_bind(w, elems, i, keys, fuel).0),
        loop_bind(w, elems, i, keys, fuel).1 is Ok
            ==> loop_bind(w, elems, i, keys, fuel).0.wanted == w.wanted,
    decreases fuel, 10nat, elems.len() - 2 * i,
{
    lemma_tidy_everywhere();
    if !(i < 0 || 2 * i + 1 >= elems.len()) {
        match elems[2 * i] {
            Datum::Symbol(s, None) => {
                law_eval_keeps_scopes(w, elems[2 * i + 1], fuel);
                let o = eval(w, elems[2 * i + 1], fuel);
                match o.result {
                    Ok(value) => {
                        keeps_loop_bind(bind(o.world, s, value), elems, i + 1, keys.push(s), fuel);
                    },
                    Err(e) => {},
                }
            },
            _ => {},
        }
    }
}

/// Iterating a `loop*` keeps the number of scopes of a state that has a
/// scope.
pub proof fn keeps_loop_iterate(
    w: World,
    keys: Seq<Seq<char>>,
    body: Seq<Datum>,
    fuel: nat,
    steps: nat,
)
    requires
        depth(w) >= 1,
    ensures
        depth(loop_iterate(w, keys, body, fuel, steps).world) == depth(w),
        loop_iterate(w, keys, body, fuel, steps).world.atoms.len() >= w.atoms.len(),
        tidy(w) ==> tidy(loop_iterate(w, keys, body, fuel, steps).world),
        loop_iterate(w, keys, body, fuel, steps).result is Ok
            ==> loop_iterate(w, keys, body, fuel, steps).world.wanted == w.wanted,
    decreases fuel, 25nat, steps,
{
    lemma_tidy_everywhere();
    keeps_do_from(w, body, 0, Datum::Nil, fuel);
    let o = do_from(w, body, 0, Datum::Nil, fuel);
    match o.result {
        Ok(Datum::Recur(next)) => {
            if next.len() == keys.len() && steps > 0 {
                lemma_bind_names_depth(o.world, keys, next, keys.len());
                keeps_loop_iterate(
                    bind_names(o.world, keys, next, keys.len()),
                    keys,
                    body,
                    fuel,
                    (steps - 1) as nat,
                );
            }
        },
        _ => {},
    }
}

/// `loop*` leaves as many scopes as it found,
/// and no fewer atoms.
pub proof fn keeps_eval_loop(w: World, items: Seq<Datum>, fuel: nat)
    ensures
        depth(eval_loop(w, items, fuel).world) == depth(w),
        eval_loop(w, items, fuel).world.atoms.len() >= w.atoms.len(),
        tidy(w) ==> tidy(eval_loop(w, items, fuel).world),
        eval_loop(w, items, fuel).result is Ok
            ==> eval_loop(w, items, fuel).world.wanted == w.wanted,
    decreases fuel, 72nat, 0nat,
{
    lemma_tidy_everywhere();
    if items.len() >= 2 && items[1] is Vector && items[1]->Vector_0.len() % 2 == 0 {
        let elems = items[1]->Vector_0;
        let body = items.skip(2);
        if body.len() != 0 {
            keeps_loop_bind(enter_scope(w), elems, 0, Seq::empty(), fuel);
            let (w1, keys) = loop_bind(enter_scope(w), elems, 0, Seq::empty(), fuel);
            match keys {
                Ok(keys) => keeps_loop_iterate(w1, keys, body, fuel, loop_limit()),
                Err(e) => {},
            }
        }
    }
}

/// `if` leaves as many scopes as it found,
/// and no fewer atoms.
pub proof fn keeps_eval_if(w: World, items: Seq<Datum>, fuel: nat)
    ensures
        depth(eval_if(w, items, fuel).world) == depth(w),
        eval_if(w, items, fuel).world.atoms.len() >= w.atoms.len(),
        tidy(w) ==> tidy(eval_if(w, items, fuel).world),
        eval_if(w, items, fuel).result is Ok
            ==> eval_if(w, items, fuel).world.wanted == w.wanted,
    decreases fuel, 72nat, 0nat,
{
    lemma_tidy_everywhere();
    if items.len() >= 3 {
        law_eval_keeps_scopes(w, items[1], fuel);
        let o = eval(w, items[1], fuel);
        match o.result {
            Ok(p) => {
                if !falsey(p) {
                    law_eval_keeps_scopes(o.world, items[2], fuel);
                } else if items.len() >= 4 {
                    law_eval_keeps_scopes(o.world, items[3], fuel);
                }
            },
            Err(e) => {},
        }
    }
}

/// `fn*` leaves as many scopes as it found,
/// and no fewer atoms.
pub proof fn keeps_eval_fn(w: World, items: Seq<Datum>, fuel: nat)
    ensures
        depth(eval_fn(w, items, fuel).world) == depth(w),
        eval_fn(w, items, fuel).world.atoms.len() >= w.atoms.len(),
        tidy(w) ==> tidy(eval_fn(w, items, fuel).world),
        eval_fn(w, items, fuel).result is Ok
            ==> eval_fn(w, items, fuel).world.wanted == w.wanted,
    decreases fuel, 72nat, 0nat,
{
    lemma_tidy_everywhere();
    if items.len() >= 2 && items[1] is Vector {
        keeps_analyze_lambda(
            w,
            items.skip(2),
            items[1]->Vector_0,
            Tracks { scopes: Seq::empty(), captures: Seq::empty() },
            0,
            fuel,
        );
    }
}

/// Finding the handler of a `try*` leaves as many scopes as it found,
/// and no fewer atoms.
pub proof fn keeps_catch_of(w: World, rest: Seq<Datum>, fuel: nat)
    ensures
        depth(catch_of(w, rest, fuel).0) == depth(w),
        catch_of(w, rest, fuel).0.atoms.len() >= w.atoms.len(),
        tidy(w) ==> tidy(catch_of(w, rest, fuel).0),
        catch_of(w, rest, fuel).1 is Ok
            ==> catch_of(w, rest, fuel).0.wanted == w.wanted,
    decreases fuel, 71nat, 0nat,
{
    lemma_tidy_everywhere();
    if rest.len() > 0 {
        match rest[rest.len() - 1] {
            Datum::List(last) => {
                if last.len() > 0 && is_sym(last[0], "catch*"@) && last.len() >= 2 {
                    match last[1] {
                        Datum::Symbol(_, None) => {
                            keeps_analyze_lambda(
                                w,
                                last.skip(2),
                                seq![last[1]],
                                Tracks { scopes: Seq::empty(), captures: Seq::empty() },
                                0,
                                fuel,
                            );
                        },
                        _ => {},
                    }
                }
            },
            _ => {},
        }
    }
}

/// Running a handler leaves as many scopes as it found,
/// and no fewer atoms.
pub proof fn keeps_handle(w: World, handler: Datum, thrown: Datum, fuel: nat)
    ensures
        depth(handle(w, handler, thrown, fuel).world) == depth(w),
        handle(w, handler, thrown, fuel).world.atoms.len() >= w.atoms.len(),
        tidy(w) ==> tidy(handle(w, handler, thrown, fuel).world),
        handle(w, handler, thrown, fuel).result is Ok
            ==> handle(w, handler, thrown, fuel).world.wanted == w.wanted,
    decreases fuel, 71nat, 0nat,
{
    lemma_tidy_everywhere();
    match handler {
        Datum::Fn(lam) => {
            let w1 = bind(
                enter_scope(w),
                crate::params::parameter_key(0, lam.level as nat),
                crate::maps::marked(thrown, false),
            );
            keeps_do_from(w1, lam.body, 0, Datum::Nil, fuel);
        },
        Datum::FnWithCaptures(lam, names, values) => {
            match resolve_captures(w.scopes, names, values) {
                Ok(resolved) => {
                    lemma_bind_names_depth(enter_scope(w), names, resolved, names.len());
                    let w1 = bind(
                        enter_scope(bind_names(enter_scope(w), names, resolved, names.len())),
                        crate::params::parameter_key(0, lam.level as nat),
                        crate::maps::marked(thrown, false),
                    );
                    keeps_do_from(w1, lam.body, 0, Datum::Nil, fuel);
                    let o = do_from(w1, lam.body, 0, Datum::Nil, fuel);
                    assert(depth(o.world) == depth(w) + 2);
                    assert(depth(leave_scope(o.world)) == depth(w) + 1);
                },
                Err(e) => {},
            }
        },
        _ => {},
    }
}

/// `try*` leaves as many scopes as it found,
/// and no fewer atoms.
pub proof fn keeps_eval_try(w: World, items: Seq<Datum>, fuel: nat)
    ensures
        depth(eval_try(w, items, fuel).world) == depth(w),
        eval_try(w, items, fuel).world.atoms.len() >= w.atoms.len(),
        tidy(w) ==> tidy(eval_try(w, items, fuel).world),
        eval_try(w, items, fuel).result is Ok
            ==> eval_try(w, items, fuel).world.wanted == w.wanted,
    decreases fuel, 72nat, 0nat,
{
    lemma_tidy_everywhere();
    let rest = items.skip(1);
    keeps_catch_of(w, rest, fuel);
    let (w1, handler) = catch_of(w, rest, fuel);
    match handler {
        Err(e) => {},
        Ok(handler) => {
            let forms = if handler is Some {
                rest.take(rest.len() - 1)
            } else {
                rest
            };
            keeps_do_from(w1, forms, 0, Datum::Nil, fuel);
            let o = do_from(w1, forms, 0, Datum::Nil, fuel);
            match o.result {
                Ok(v) => {
                    if is_thrown(v) {
                        match handler {
                            Some(h) => keeps_handle(o.world, h, v, fuel),
                            None => {},
                        }
                    }
                },
                Err(e) => {},
            }
        },
    }
}

/// Analyzing a function leaves as many scopes as it found,
/// and no fewer atoms.
pub proof fn keeps_analyze_lambda(
    w: World,
    body: Seq<Datum>,
    params: Seq<Datum>,
    tracks: Tracks,
    level: usize,
    fuel: nat,
)
    ensures
        depth(analyze_lambda(w, body, params, tracks, level, fuel).world) == depth(w),
        analyze_lambda(w, body, params, tracks, level, fuel).world.atoms.len() >= w.atoms.len(),
        tidy(w) ==> tidy(analyze_lambda(w, body, params, tracks, level, fuel).world),
        analyze_lambda(w, body, params, tracks, level, fuel).result is Ok
            ==> analyze_lambda(w, body, params, tracks, level, fuel).world.wanted == w.wanted,
    decreases fuel, 55nat, 0nat,
{
    lemma_tidy_everywhere();
    match parameters(params, level, params.len()) {
        Err(e) => {},
        Ok((frame, variadic)) => {
            let inner = Tracks { scopes: tracks.scopes.push(frame), captures: tracks.captures };
            keeps_analyze_run(w, body, body.len(), inner, level, fuel);
        },
    }
}

/// Analyzing a run of forms leaves as many scopes as it found,
/// and no fewer atoms.
pub proof fn keeps_analyze_run(
    w: World,
    items: Seq<Datum>,
    n: nat,
    tracks: Tracks,
    level: usize,
    fuel: nat,
)
    ensures
        depth(analyze_run(w, items, n, tracks, level, fuel).world) == depth(w),
        analyze_run(w, items, n, tracks, level, fuel).world.atoms.len() >= w.atoms.len(),
        tidy(w) ==> tidy(analyze_run(w, items, n, tracks, level, fuel).world),
        analyze_run(w, items, n, tracks, level, fuel).result is Ok
            ==> analyze_run(w, items, n, tracks, level, fuel).world.wanted == w.wanted,
    decreases fuel, 10nat, n,
{
    lemma_tidy_everywhere();
    if !(n == 0 || n > items.len()) {
        keeps_analyze_run(w, items, (n - 1) as nat, tracks, level, fuel);
        let front = analyze_run(w, items, (n - 1) as nat, tracks, level, fuel);
        if front.result is Ok {
            keeps_analyze_form(front.world, items[n - 1], front.tracks, level, fuel);
        }
    }
}

/// Analyzing a form leaves as many scopes as it found,
/// and no fewer atoms.
pub proof fn keeps_analyze_form(w: World, form: Datum, tracks: Tracks, level: usize, fuel: nat)
    ensures
        depth(analyze_form(w, form, tracks, level, fuel).world) == depth(w),
        analyze_form(w, form, tracks, level, fuel).world.atoms.len() >= w.atoms.len(),
        tidy(w) ==> tidy(analyze_form(w, form, tracks, level, fuel).world),
        analyze_form(w, form, tracks, level, fuel).result is Ok
            ==> analyze_form(w, form, tracks, level, fuel).world.wanted == w.wanted,
    decreases fuel, 0nat, 0nat,
{
    lemma_tidy_everywhere();
    if fuel > 0 {
        let f = (fuel - 1) as nat;
        match form {
            Datum::List(items) => {
                if items.len() > 0 {
                    keeps_macro_expansion(w, items, f);
                    match macro_expansion(w, items, f) {
                        Some(o) => match o.result {
                            Ok(Datum::List(elems)) => keeps_analyze_list(
                                o.world,
                                elems,
                                tracks,
                                level,
                                f,
                            ),
                            Ok(other) => keeps_analyze_form(o.world, other, tracks, level, f),
                            Err(e) => {},
                        },
                        None => keeps_analyze_list(w, items, tracks, level, f),
                    }
                }
            },
            Datum::Vector(items) => keeps_analyze_run(w, items, items.len(), tracks, level, f),
            Datum::HashMap(items) => keeps_analyze_run(w, items, items.len(), tracks, level, f),
            Datum::HashSet(items) => keeps_analyze_run(w, items, items.len(), tracks, level, f),
            _ => {},
        }
    }
}

/// Analyzing the pairs of a bindings vector leaves as many scopes as it found,
/// and no fewer atoms.
pub proof fn keeps_analyze_pairs(
    w: World,
    bindings: Seq<Datum>,
    n: nat,
    tracks: Tracks,
    level: usize,
    fuel: nat,
)
    ensures
        depth(analyze_pairs(w, bindings, n, tracks, level, fuel).world) == depth(w),
        analyze_pairs(w, bindings, n, tracks, level, fuel).world.atoms.len() >= w.atoms.len(),
        tidy(w) ==> tidy(analyze_pairs(w, bindings, n, tracks, level, fuel).world),
        analyze_pairs(w, bindings, n, tracks, level, fuel).result is Ok
            ==> analyze_pairs(w, bindings, n, tracks, level, fuel).world.wanted == w.wanted,
    decreases fuel, 10nat, n,
{
    lemma_tidy_everywhere();
    if !(n == 0 || 2 * n > bindings.len()) {
        keeps_analyze_pairs(w, bindings, (n - 1) as nat, tracks, level, fuel);
        let front = analyze_pairs(w, bindings, (n - 1) as nat, tracks, level, fuel);
        if front.result is Ok {
            keeps_analyze_form(front.world, bindings[2 * n - 1], front.tracks, level, fuel);
        }
    }
}

/// Analyzing a nested function leaves as many scopes as it found,
/// and no fewer atoms.
pub proof fn keeps_analyze_nested(
    w: World,
    body: Seq<Datum>,
    params: Seq<Datum>,
    tracks: Tracks,
    level: usize,
    fuel: nat,
)
    ensures
        depth(analyze_nested(w, body, params, tracks, level, fuel).world) == depth(w),
        analyze_nested(w, body, params, tracks, level, fuel).world.atoms.len() >= w.atoms.len(),
        tidy(w) ==> tidy(analyze_nested(w, body, params, tracks, level, fuel).world),
        analyze_nested(w, body, params, tracks, level, fuel).result is Ok
            ==> analyze_nested(w, body, params, tracks, level, fuel).world.wanted == w.wanted,
    decreases fuel, 58nat, 0nat,
{
    lemma_tidy_everywhere();
    keeps_analyze_lambda(
        w,
        body,
        params,
        Tracks { scopes: tracks.scopes, captures: tracks.captures.push(Seq::empty()) },
        if level < usize::MAX {
            (level + 1) as usize
        } else {
            level
        },
        fuel,
    );
}

/// Analyzing the rest of a list leaves as many scopes as it found,
/// and no fewer atoms.
pub proof fn keeps_analyze_tail(
    w: World,
    elems: Seq<Datum>,
    from: int,
    done: Seq<Datum>,
    tracks: Tracks,
    opened: bool,
    level: usize,
    fuel: nat,
)
    ensures
        depth(analyze_tail(w, elems, from, done, tracks, opened, level, fuel).world) == depth(w),
        analyze_tail(w, elems, from, done, tracks, opened, level, fuel).world.atoms.len()
            >= w.atoms.len(),
        tidy(w) ==> tidy(analyze_tail(w, elems, from, done, tracks, opened, level, fuel).world),
        analyze_tail(w, elems, from, done, tracks, opened, level, fuel).result is Ok
            ==> analyze_tail(w, elems, from, done, tracks, opened, level, fuel).world.wanted
                == w.wanted,
    decreases fuel, 59nat, 0nat,
{
    lemma_tidy_everywhere();
    let rest = if 0 <= from <= elems.len() {
        elems.skip(from)
    } else {
        Seq::empty()
    };
    keeps_analyze_run(w, rest, rest.len(), tracks, level, fuel);
}

/// Analyzing a template leaves as many scopes as it found,
/// and no fewer atoms.
pub proof fn keeps_analyze_template(w: World, t: Datum, tracks: Tracks, level: usize, fuel: nat)
    ensures
        depth(crate::semantics::analyze_template(w, t, tracks, level, fuel).world) == depth(w),
        crate::semantics::analyze_template(w, t, tracks, level, fuel).world.atoms.len()
            >= w.atoms.len(),
        tidy(w) ==> tidy(crate::semantics::analyze_template(w, t, tracks, level, fuel).world),
        crate::semantics::analyze_template(w, t, tracks, level, fuel).result is Ok
            ==> crate::semantics::analyze_template(w, t, tracks, level, fuel).world.wanted
                == w.wanted,
    decreases fuel, 0nat, 0nat,
{
    lemma_tidy_everywhere();
    if fuel > 0 {
        let f = (fuel - 1) as nat;
        match t {
            Datum::List(items) => {
                if items.len() >= 2 && is_sym(items[0], "unquote"@) {
                    keeps_analyze_form(w, items[1], tracks, level, f);
                } else {
                    keeps_analyze_template_run(w, items, items.len(), tracks, level, f);
                }
            },
            Datum::Vector(items) => {
                keeps_analyze_template_run(w, items, items.len(), tracks, level, f);
            },
            Datum::HashMap(_) => {},
            Datum::Symbol(_, _) => {},
            other => keeps_analyze_form(w, other, tracks, level, f),
        }
    }
}

/// Analyzing an item of a template leaves as many scopes as it found,
/// and no fewer atoms.
pub proof fn keeps_analyze_template_item(
    w: World,
    item: Datum,
    tracks: Tracks,
    level: usize,
    fuel: nat,
)
    ensures
        depth(crate::semantics::analyze_template_item(w, item, tracks, level, fuel).world)
            == depth(w),
        crate::semantics::analyze_template_item(w, item, tracks, level, fuel).world.atoms.len()
            >= w.atoms.len(),
        tidy(w) ==> tidy(
            crate::semantics::analyze_template_item(w, item, tracks, level, fuel).world,
        ),
        crate::semantics::analyze_template_item(w, item, tracks, level, fuel).result is Ok
            ==> crate::semantics::analyze_template_item(w, item, tracks, level, fuel).world.wanted
                == w.wanted,
    decreases fuel, 5nat, 0nat,
{
    lemma_tidy_everywhere();
    match item {
        Datum::List(inner) => {
            if inner.len() >= 2 && is_sym(inner[0], "splice-unquote"@) {
                keeps_analyze_form(w, inner[1], tracks, level, fuel);
            } else {
                keeps_analyze_template(w, item, tracks, level, fuel);
            }
        },
        _ => keeps_analyze_template(w, item, tracks, level, fuel),
    }
}

/// Analyzing the items of a template leaves as many scopes as it found,
/// and no fewer atoms.
pub proof fn keeps_analyze_template_run(
    w: World,
    items: Seq<Datum>,
    n: nat,
    tracks: Tracks,
    level: usize,
    fuel: nat,
)
    ensures
        depth(crate::semantics::analyze_template_run(w, items, n, tracks, level, fuel).world)
            == depth(w),
        crate::semantics::analyze_template_run(w, items, n, tracks, level, fuel).world.atoms.len()
            >= w.atoms.len(),
        tidy(w) ==> tidy(
            crate::semantics::analyze_template_run(w, items, n, tracks, level, fuel).world,
        ),
        crate::semantics::analyze_template_run(w, items, n, tracks, level, fuel).result is Ok
            ==> crate::semantics::analyze_template_run(w, items, n, tracks, level, fuel).world.wanted
                == w.wanted,
    decreases fuel, 10nat, n,
{
    lemma_tidy_everywhere();
    if !(n == 0 || n > items.len()) {
        keeps_analyze_template_run(w, items, (n - 1) as nat, tracks, level, fuel);
        let front = crate::semantics::analyze_template_run(
            w,
            items,
            (n - 1) as nat,
            tracks,
            level,
            fuel,
        );
        if front.result is Ok {
            keeps_analyze_template_item(front.world, items[n - 1], front.tracks, level, fuel);
        }
    }
}

/// Analyzing a list leaves as many scopes as it found,
/// and no fewer atoms.
#[verifier::rlimit(80)]
pub proof fn keeps_analyze_list(w: World, elems: Seq<Datum>, tracks: Tracks, level: usize, fuel: nat)
    ensures
        depth(analyze_list(w, elems, tracks, level, fuel).world) == depth(w),
        analyze_list(w, elems, tracks, level, fuel).world.atoms.len() >= w.atoms.len(),
        tidy(w) ==> tidy(analyze_list(w, elems, tracks, level, fuel).world),
        analyze_list(w, elems, tracks, level, fuel).result is Ok
            ==> analyze_list(w, elems, tracks, level, fuel).world.wanted == w.wanted,
    decreases fuel, 60nat, 0nat,
{
    lemma_tidy_everywhere();
    if elems.len() >= 2 && (is_sym(elems[0], "let*"@) || is_sym(elems[0], "loop*"@))
        && elems[1] is Vector {
        let bindings = elems[1]->Vector_0;
        if bindings.len() % 2 == 0 {
            match own_names(bindings, bindings.len() / 2) {
                None => {},
                Some(frame) => {
                    let early = is_sym(elems[0], "let*"@);
                    let start = if early {
                        Tracks { scopes: tracks.scopes.push(frame), captures: tracks.captures }
                    } else {
                        tracks
                    };
                    keeps_analyze_pairs(w, bindings, bindings.len() / 2, start, level, fuel);
                    let a = analyze_pairs(w, bindings, bindings.len() / 2, start, level, fuel);
                    match a.result {
                        Ok(values) => keeps_analyze_tail(
                            a.world,
                            elems,
                            2,
                            seq![elems[0], Datum::Vector(values)],
                            if early {
                                a.tracks
                            } else {
                                Tracks {
                                    scopes: a.tracks.scopes.push(frame),
                                    captures: a.tracks.captures,
                                }
                            },
                            true,
                            level,
                            fuel,
                        ),
                        Err(e) => {},
                    }
                },
            }
        }
    } else if elems.len() >= 2 && is_sym(elems[0], "fn*"@) && elems[1] is Vector {
        keeps_analyze_nested(w, elems.skip(2), elems[1]->Vector_0, tracks, level, fuel);
    } else if elems.len() >= 2 && is_sym(elems[0], "catch*"@) && plain_symbol(elems[1]) is Some {
        keeps_analyze_nested(w, elems.skip(2), seq![elems[1]], tracks, level, fuel);
    } else if elems.len() == 2 && is_sym(elems[0], "quote"@) {
    } else if elems.len() >= 2 && is_sym(elems[0], "quasiquote"@) {
        keeps_analyze_template(w, elems[1], tracks, level, fuel);
    } else if elems.len() >= 1 && (is_sym(elems[0], "let*"@) || is_sym(elems[0], "loop*"@)) {
        keeps_analyze_tail(w, elems, 1, seq![elems[0]], tracks, false, level, fuel);
    } else {
        keeps_analyze_tail(w, elems, 0, Seq::empty(), tracks, false, level, fuel);
    }
}

/// Applying a function to each item leaves as many scopes as it found,
/// and no fewer atoms.
pub proof fn keeps_map_items(
    w: World,
    callee: Datum,
    items: Seq<Datum>,
    n: nat,
    done: Seq<Datum>,
    fuel: nat,
)
    ensures
        depth(map_items(w, callee, items, n, done, fuel).world) == depth(w),
        map_items(w, callee, items, n, done, fuel).world.atoms.len() >= w.atoms.len(),
        tidy(w) ==> tidy(map_items(w, callee, items, n, done, fuel).world),
        map_items(w, callee, items, n, done, fuel).result is Ok
            ==> map_items(w, callee, items, n, done, fuel).world.wanted == w.wanted,
    decreases fuel, 41nat, n,
{
    lemma_tidy_everywhere();
    if !(n == 0 || n > items.len()) && fuel > 0 {
        let f = (fuel - 1) as nat;
        let one = seq![items[n - 1]];
        match callee {
            Datum::Primitive(p) => keeps_call_primitive(w, p, one, f),
            Datum::Fn(lam) => keeps_apply_lambda(w, lam, one, f),
            Datum::FnWithCaptures(lam, _, _) => keeps_apply_lambda(w, lam, one, f),
            _ => {},
        }
        let o = match callee {
            Datum::Primitive(p) => call_primitive(w, p, one, f),
            Datum::Fn(lam) => apply_lambda(w, lam, one, f),
            Datum::FnWithCaptures(lam, _, _) => apply_lambda(w, lam, one, f),
            _ => crate::world::fail(w, crate::prelude_spec::incorrect_argument()),
        };
        match o.result {
            Ok(v) => keeps_map_items(o.world, callee, items, (n - 1) as nat, seq![v] + done, fuel),
            Err(e) => {},
        }
    }
}

/// Evaluating with only the outermost scope leaves as many scopes as it found,
/// and no fewer atoms.
pub proof fn keeps_eval_globally(w: World, form: Datum, fuel: nat)
    ensures
        depth(eval_globally(w, form, fuel).world) == depth(w),
        eval_globally(w, form, fuel).world.atoms.len() >= w.atoms.len(),
        tidy(w) ==> tidy(eval_globally(w, form, fuel).world),
        eval_globally(w, form, fuel).result is Ok
            ==> eval_globally(w, form, fuel).world.wanted == w.wanted,
    decreases fuel, 5nat, 0nat,
{
    lemma_tidy_everywhere();
    let kept = if w.scopes.len() > 0 {
        1int
    } else {
        0int
    };
    law_eval_keeps_scopes(with_scopes(w, w.scopes.take(kept)), form, fuel);
}

/// Applying a primitive leaves as many scopes as it found,
/// and no fewer atoms.
pub proof fn keeps_call_primitive(w: World, p: Primitive, args: Seq<Datum>, fuel: nat)
    ensures
        depth(call_primitive(w, p, args, fuel).world) == depth(w),
        call_primitive(w, p, args, fuel).world.atoms.len() >= w.atoms.len(),
        tidy(w) ==> tidy(call_primitive(w, p, args, fuel).world),
        call_primitive(w, p, args, fuel).result is Ok
            ==> call_primitive(w, p, args, fuel).world.wanted == w.wanted,
    decreases fuel, 42nat, 0nat,
{
    lemma_tidy_everywhere();
    match p {
        Primitive::Eval => {
            if args.len() == 1 {
                keeps_eval_globally(w, args[0], fuel);
            }
        },
        Primitive::SwapAtom => {
            if args.len() >= 2 {
                match args[0] {
                    Datum::Atom(cell) => {
                        if applicable(args[1]) && fuel > 0 {
                            keeps_invoke(
                                w,
                                args[1],
                                seq![atom_value(w, cell)] + args.skip(2),
                                (fuel - 1) as nat,
                            );
                        }
                    },
                    _ => {},
                }
            }
        },
        Primitive::Apply => {
            if args.len() >= 2 {
                match spread(args) {
                    Some(operands) => {
                        if fuel > 0 {
                            keeps_invoke(w, args[0], operands, (fuel - 1) as nat);
                        }
                    },
                    None => {},
                }
            }
        },
        Primitive::MapOver => {
            if args.len() == 2 {
                match items_of(args[1]) {
                    None => {},
                    Some(items) => match args[0] {
                        Datum::FnWithCaptures(_, names, values) => {
                            lemma_extend_depth(w, names, values);
                            let (w1, e) = extend_from_captures(w, names, values);
                            if e is None {
                                keeps_map_items(w1, args[0], items, items.len(), Seq::empty(), fuel);
                            }
                        },
                        other => {
                            if applicable(other) {
                                keeps_map_items(w, other, items, items.len(), Seq::empty(), fuel);
                            }
                        },
                    },
                }
            }
        },
        _ => {},
    }
}

} // verus!
