//! Laws of the language, proved from the semantics.
use crate::errors::Failure;
use crate::params::{key_prefix, last_slash, parameter_key, parameter_level};
use crate::quasiquote::sym;
use crate::semantics::{
    analyze_lambda, apply_fn, apply_lambda, call_primitive, deref_spec, dispatch, eval,
    eval_def, eval_fn, eval_if, eval_list, eval_recur, eval_run, evaluate, expand_if_present,
    falsey, invoke, macro_expansion, macro_of, parameters, plain_symbol, Tracks,
};
use crate::text::{all_digits, digits, is_digit, lemma_digits_round_trip};
use crate::value::{Datum, Primitive};
use crate::world::{
    atom_value, enter_scope, intern_in, kept, leave_scope, ok, place, resolve_var, space_get,
    space_place, space_without, unintern, Space, World,
};
use vstd::prelude::*;

verus! {

/// Whether a name stands for a macro where a list has it as its head.
pub open spec fn names_macro(w: World, name: Seq<char>) -> bool {
    macro_of(w, sym(name)) is Some
}

/// The empty list evaluates to the empty list and changes nothing.
pub proof fn law_empty_list(w: World, fuel: nat)
    requires
        fuel >= 1,
    ensures
        eval(w, Datum::List(Seq::empty()), fuel) == ok(w, Datum::List(Seq::empty())),
{
}

/// The names of the special forms differ from one another as far as the
/// order of the dispatch needs it.
pub proof fn lemma_special_names()
    ensures
        "def!"@ != "var"@,
        "def!"@ != "let*"@,
        "def!"@ != "loop*"@,
        "def!"@ != "recur"@,
        "def!"@ != "if"@,
        "def!"@ != "fn*"@,
        "var"@ != "let*"@,
        "var"@ != "loop*"@,
        "var"@ != "recur"@,
        "var"@ != "if"@,
        "var"@ != "fn*"@,
        "let*"@ != "loop*"@,
        "let*"@ != "recur"@,
        "let*"@ != "if"@,
        "let*"@ != "fn*"@,
        "loop*"@ != "recur"@,
        "loop*"@ != "if"@,
        "loop*"@ != "fn*"@,
        "recur"@ != "if"@,
        "recur"@ != "fn*"@,
        "if"@ != "do"@,
        "if"@ != "fn*"@,
        "do"@ != "fn*"@,
{
    reveal_strlit("def!");
    reveal_strlit("var");
    reveal_strlit("let*");
    reveal_strlit("loop*");
    reveal_strlit("recur");
    reveal_strlit("if");
    reveal_strlit("do");
    reveal_strlit("fn*");
    assert("def!"@.len() == 4);
    assert("var"@.len() == 3);
    assert("let*"@.len() == 4);
    assert("loop*"@.len() == 5);
    assert("recur"@.len() == 5);
    assert("if"@.len() == 2);
    assert("do"@.len() == 2);
    assert("fn*"@.len() == 3);
    assert("def!"@[0] == 'd');
    assert("let*"@[0] == 'l');
    assert("var"@[0] == 'v');
    assert("fn*"@[0] == 'f');
    assert("loop*"@[0] == 'l');
    assert("recur"@[0] == 'r');
    assert("if"@[0] == 'i');
    assert("do"@[0] == 'd');
}

/// `(if p a b)` gives the value of `b` where `p` evaluates to `nil` or
/// `false`, and the value of `a` where it evaluates to anything else.
pub proof fn law_if(w: World, p: Datum, a: Datum, b: Datum, fuel: nat)
    requires
        fuel >= 1,
        !names_macro(w, "if"@),
    ensures
        ({
            let form = Datum::List(seq![sym("if"@), p, a, b]);
            let f = (fuel - 1) as nat;
            let o = eval(w, p, f);
            eval(w, form, fuel) == (match o.result {
                Ok(v) => if falsey(v) {
                    eval(o.world, b, f)
                } else {
                    eval(o.world, a, f)
                },
                Err(e) => o,
            })
        }),
{
    lemma_special_names();
    let items = seq![sym("if"@), p, a, b];
    let f = (fuel - 1) as nat;
    assert(items[0] == sym("if"@));
    assert(macro_expansion(w, items, f) is None);
    assert(eval_list(w, items, f) == dispatch(w, items, f));
    assert(dispatch(w, items, f) == eval_if(w, items, f));
}

/// `(if nil a b)` and `(if false a b)` give the value of `b`; `(if 0 a b)`,
/// `(if "" a b)` and `(if [] a b)` give the value of `a`.
pub proof fn law_if_literals(w: World, a: Datum, b: Datum, fuel: nat)
    requires
        fuel >= 3,
        !names_macro(w, "if"@),
    ensures
        eval(w, Datum::List(seq![sym("if"@), Datum::Nil, a, b]), fuel) == eval(
            w,
            b,
            (fuel - 1) as nat,
        ),
        eval(w, Datum::List(seq![sym("if"@), Datum::Bool(false), a, b]), fuel) == eval(
            w,
            b,
            (fuel - 1) as nat,
        ),
        eval(w, Datum::List(seq![sym("if"@), Datum::Number(0), a, b]), fuel) == eval(
            w,
            a,
            (fuel - 1) as nat,
        ),
        eval(w, Datum::List(seq![sym("if"@), Datum::String(Seq::empty()), a, b]), fuel) == eval(
            w,
            a,
            (fuel - 1) as nat,
        ),
        eval(w, Datum::List(seq![sym("if"@), Datum::Vector(Seq::empty()), a, b]), fuel) == eval(
            w,
            a,
            (fuel - 1) as nat,
        ),
{
    law_if(w, Datum::Nil, a, b, fuel);
    law_if(w, Datum::Bool(false), a, b, fuel);
    law_if(w, Datum::Number(0), a, b, fuel);
    law_if(w, Datum::String(Seq::empty()), a, b, fuel);
    law_if(w, Datum::Vector(Seq::empty()), a, b, fuel);
    let f = (fuel - 1) as nat;
    reveal_with_fuel(eval_run, 2);
    assert(eval(w, Datum::Vector(Seq::empty()), f) == ok(w, Datum::Vector(Seq::empty())));
}

/// A list whose head names no macro is its own expansion, so that
/// expanding it again changes nothing.
pub proof fn law_macroexpand_idempotent(w: World, items: Seq<Datum>, fuel: nat)
    requires
        items.len() == 0 || macro_of(w, items[0]) is None,
    ensures
        expand_if_present(w, items, fuel) == ok(w, Datum::List(items)),
        ({
            let once = expand_if_present(w, items, fuel);
            once.result matches Ok(Datum::List(again)) && expand_if_present(
                once.world,
                again,
                fuel,
            ) == once
        }),
{
}

/// At the top, a `(recur ...)` form is an error: no `loop*` is there to
/// take it.
pub proof fn law_recur_at_top(w: World, operands: Seq<Datum>, fuel: nat)
    requires
        !names_macro(w, "recur"@),
    ensures
        evaluate(w, Datum::List(seq![sym("recur"@)] + operands), fuel).result is Err,
{
    lemma_special_names();
    if fuel > 0 {
        let items = seq![sym("recur"@)] + operands;
        let f = (fuel - 1) as nat;
        assert(items[0] == sym("recur"@));
        assert(macro_expansion(w, items, f) is None);
        assert(eval_list(w, items, f) == dispatch(w, items, f));
        assert(dispatch(w, items, f) == eval_recur(w, items, f));
    }
}

/// `(swap! a f x...)` on an atom gives what `f` gives for the value that
/// the atom holds and the operands `x...`, and `(deref a)` gives the same
/// value afterwards. Where `f` fails, `swap!` fails as `f` did and leaves
/// what `f` left.
pub proof fn law_swap_then_deref(w: World, cell: usize, f: Datum, xs: Seq<Datum>, fuel: nat)
    requires
        cell < w.atoms.len(),
        f is Fn || f is FnWithCaptures || f is Primitive,
    ensures
        ({
            let applied = invoke(w, f, seq![atom_value(w, cell)] + xs, fuel);
            let swapped = call_primitive(
                w,
                Primitive::SwapAtom,
                seq![Datum::Atom(cell), f] + xs,
                fuel + 1,
            );
            match applied.result {
                Ok(v) => swapped.result == Ok::<Datum, Failure>(v) && deref_spec(
                    swapped.world,
                    seq![Datum::Atom(cell)],
                ) == Ok::<Datum, Failure>(v),
                Err(e) => swapped == applied,
            }
        }),
{
    let args = seq![Datum::Atom(cell), f] + xs;
    assert(args[0] == Datum::Atom(cell));
    assert(args[1] == f);
    assert(args.skip(2) =~= xs);
    crate::balance::keeps_invoke(w, f, seq![atom_value(w, cell)] + xs, fuel);
}

/// `swap!` with fewer than two operands, on something that is no atom, or
/// with something that cannot be called, fails and changes nothing.
pub proof fn law_swap_refusals(w: World, args: Seq<Datum>, fuel: nat)
    requires
        args.len() < 2 || !(args[0] is Atom) || !(args[1] is Fn || args[1] is FnWithCaptures
            || args[1] is Primitive),
    ensures
        call_primitive(w, Primitive::SwapAtom, args, fuel).world == w,
        call_primitive(w, Primitive::SwapAtom, args, fuel).result == Err::<Datum, Failure>(
            if args.len() < 2 {
                crate::prelude_spec::wrong_arity()
            } else {
                crate::prelude_spec::incorrect_argument()
            },
        ),
{
}

/// A namespace from which a name was taken does not bind the name.
pub proof fn lemma_without_forgets(sp: Space, id: Seq<char>)
    ensures
        space_get(space_without(sp, id), id) is None,
{
    lemma_kept_forgets(sp, id, sp.names.len());
}

/// None of the kept names is the name that was taken out.
pub proof fn lemma_kept_forgets(sp: Space, id: Seq<char>, n: nat)
    requires
        n <= sp.names.len(),
    ensures
        place(kept(sp, id, n).0, id, 0) is None,
    decreases n,
{
    if n > 0 {
        lemma_kept_forgets(sp, id, (n - 1) as nat);
        let front = kept(sp, id, (n - 1) as nat).0;
        if !(sp.names[n - 1] == id || n > sp.cells.len()) {
            crate::world::lemma_place_push(front, sp.names[n - 1], id, 0);
        }
    }
}

/// After a name was taken out of the current namespace, it resolves to no
/// var there.
pub proof fn lemma_unintern_forgets(w: World, id: Seq<char>)
    ensures
        resolve_var(unintern(w, id), id, w.current_namespace) is Err,
{
    match space_place(w.namespaces, w.current_namespace, 0) {
        None => {},
        Some(k) => {
            lemma_space_place_in_range(w.namespaces, w.current_namespace, 0);
            let cleared = space_without(w.namespaces[k], id);
            lemma_without_forgets(w.namespaces[k], id);
            let after = w.namespaces.update(k, cleared);
            lemma_space_place_update(w.namespaces, w.current_namespace, 0, k, cleared);
        },
    }
}

/// A namespace that is found lies within the namespaces and has the name.
pub proof fn lemma_space_place_in_range(spaces: Seq<Space>, name: Seq<char>, from: int)
    requires
        0 <= from,
    ensures
        match space_place(spaces, name, from) {
            Some(k) => from <= k < spaces.len() && spaces[k].name == name,
            None => true,
        },
    decreases spaces.len() - from,
{
    if from < spaces.len() && spaces[from].name != name {
        lemma_space_place_in_range(spaces, name, from + 1);
    }
}

/// Replacing a namespace by one of the same name keeps the place of every
/// namespace.
pub proof fn lemma_space_place_update(
    spaces: Seq<Space>,
    name: Seq<char>,
    from: int,
    k: int,
    with: Space,
)
    requires
        0 <= from,
        0 <= k < spaces.len(),
        with.name == spaces[k].name,
    ensures
        space_place(spaces.update(k, with), name, from) == space_place(spaces, name, from),
    decreases spaces.len() - from,
{
    if from < spaces.len() {
        if spaces[from].name != name {
            lemma_space_place_update(spaces, name, from + 1, k, with);
        }
    }
}

/// After a `def!` whose value form failed, the symbol is as the evaluation
/// of the value form left it where it had a var before, and has no var
/// where it had none: the var that was made for the `def!` is taken out.
pub proof fn law_failed_def(w: World, id: Seq<char>, form: Datum, fuel: nat)
    ensures
        ({
            let items = seq![sym("def!"@), sym(id), form];
            let o = eval_def(w, items, fuel);
            match resolve_var(w, id, w.current_namespace) {
                Ok(var) => eval(w, form, fuel).result is Err ==> o.result is Err && o.world
                    == eval(w, form, fuel).world,
                Err(Failure::MissingVar(_, _)) => {
                    let declared = intern_in(w, w.current_namespace, id, None).0;
                    eval(declared, form, fuel).result is Err ==> o.result is Err && resolve_var(
                        o.world,
                        id,
                        eval(declared, form, fuel).world.current_namespace,
                    ) is Err
                },
                Err(e) => o.result is Err && o.world == w,
            }
        }),
{
    let items = seq![sym("def!"@), sym(id), form];
    assert(items[1] == sym(id));
    assert(plain_symbol(items[1]) == Some(id));
    assert(items[2] == form);
    match resolve_var(w, id, w.current_namespace) {
        Ok(var) => {},
        Err(Failure::MissingVar(_, _)) => {
            let (declared, r) = intern_in(w, w.current_namespace, id, None);
            lemma_space_place_in_range(w.namespaces, w.current_namespace, 0);
            assert(r is Ok);
            let after = eval(declared, form, fuel);
            if after.result is Err {
                lemma_unintern_forgets(after.world, id);
            }
        },
        Err(e) => {},
    }
}

/// When the bindings up to some place are good and variadic, the place is
/// the last but one.
pub proof fn lemma_variadic_late(params: Seq<Datum>, level: usize, n: nat)
    requires
        n <= params.len(),
    ensures
        parameters(params, level, n) matches Ok((_, variadic)) ==> (variadic ==> n + 1
            >= params.len()),
    decreases n,
{
    if n > 0 {
        lemma_variadic_late(params, level, (n - 1) as nat);
    }
}

/// A parameter list that ends in `&` is an error: the name that takes the
/// remaining operands is missing.
pub proof fn law_variadic_needs_name(params: Seq<Datum>, level: usize)
    requires
        params.len() >= 1,
        params.last() == sym("&"@),
    ensures
        parameters(params, level, params.len()) is Err,
{
    let n = params.len();
    lemma_variadic_late(params, level, (n - 1) as nat);
    match parameters(params, level, (n - 1) as nat) {
        Ok((frame, variadic)) => {
            if variadic {
                assert(n >= 2);
                lemma_variadic_step(params, level, (n - 1) as nat);
            }
        },
        Err(e) => {},
    }
}

/// The bindings up to the last but one place are not good and variadic
/// where the last parameter is `&`.
pub proof fn lemma_variadic_step(params: Seq<Datum>, level: usize, n: nat)
    requires
        1 <= n,
        n + 1 == params.len(),
        params.last() == sym("&"@),
    ensures
        !(parameters(params, level, n) matches Ok((_, variadic)) && variadic),
{
    lemma_variadic_late(params, level, (n - 1) as nat);
}

/// `(fn* [... &] body...)` is an error.
pub proof fn law_fn_variadic_needs_name(w: World, params: Seq<Datum>, body: Seq<Datum>, fuel: nat)
    requires
        params.len() >= 1,
        params.last() == sym("&"@),
    ensures
        eval_fn(w, seq![sym("fn*"@), Datum::Vector(params)] + body, fuel).result is Err,
{
    let items = seq![sym("fn*"@), Datum::Vector(params)] + body;
    assert(items[1] == Datum::Vector(params));
    law_variadic_needs_name(params, 0);
}

/// Whether a form is a literal: `nil`, a boolean, a number, a string or a
/// keyword.
pub open spec fn literal(d: Datum) -> bool {
    d is Nil || d is Bool || d is Number || d is String || d is Keyword
}

/// A literal evaluates to itself and changes nothing.
pub proof fn law_literal(w: World, e: Datum, fuel: nat)
    requires
        fuel >= 1,
        literal(e),
    ensures
        eval(w, e, fuel) == ok(w, e),
{
}

/// Leaving a scope that was just entered gives the state back.
pub proof fn lemma_enter_leave(w: World)
    ensures
        leave_scope(enter_scope(w)) == w,
{
    assert(enter_scope(w).scopes.drop_last() =~= w.scopes);
}

/// For a literal `e`, `((fn* [] e))` evaluates to what `e` evaluates to:
/// wrapping a form that refers to nothing in a function of no parameters
/// and calling it changes neither the value nor the state.
pub proof fn law_thunk_of_literal(w: World, e: Datum, fuel: nat)
    requires
        fuel >= 4,
        literal(e),
        !names_macro(w, "fn*"@),
    ensures
        eval(
            w,
            Datum::List(seq![Datum::List(seq![sym("fn*"@), Datum::Vector(Seq::empty()), e])]),
            fuel,
        ) == eval(w, e, fuel),
{
    lemma_special_names();
    reveal_strlit("fn*");
    reveal_strlit("quote");
    reveal_strlit("quasiquote");
    reveal_strlit("defmacro!");
    reveal_strlit("macroexpand");
    reveal_strlit("try*");
    reveal_strlit("do");
    let inner = seq![sym("fn*"@), Datum::Vector(Seq::empty()), e];
    let outer = seq![Datum::List(inner)];
    let f1 = (fuel - 1) as nat;
    let f2 = (fuel - 2) as nat;
    let f3 = (fuel - 3) as nat;
    // the function value
    let params = Seq::<Datum>::empty();
    let body = inner.skip(2);
    assert(body =~= seq![e]);
    let tracks = Tracks { scopes: Seq::empty(), captures: Seq::empty() };
    assert(parameters(params, 0, 0) == Ok::<(crate::world::Frame, bool), Failure>(
        (crate::world::empty_frame(), false),
    ));
    let lam = crate::value::Lambda { body: seq![e], arity: 0, level: 0, variadic: false };
    assert(crate::semantics::analyze_form(w, e, Tracks {
        scopes: tracks.scopes.push(crate::world::empty_frame()),
        captures: tracks.captures,
    }, 0, f2).result == Ok::<Datum, Failure>(e));
    reveal_with_fuel(crate::semantics::analyze_run, 2);
    let a = analyze_lambda(w, body, params, tracks, 0, f2);
    assert(a.result == Ok::<Datum, Failure>(Datum::Fn(lam))) by {
        let inner_tracks = Tracks {
            scopes: tracks.scopes.push(crate::world::empty_frame()),
            captures: tracks.captures,
        };
        let r = crate::semantics::analyze_run(w, body, 1, inner_tracks, 0, f2);
        assert(r.result == Ok::<Seq<Datum>, Failure>(Seq::<Datum>::empty().push(e)));
        assert(Seq::<Datum>::empty().push(e) =~= seq![e]);
    }
    assert(a.world == w);
    assert(inner[0] == sym("fn*"@));
    assert(inner[1] == Datum::Vector(params));
    assert(macro_expansion(w, inner, f2) is None);
    assert(dispatch(w, inner, f2) == eval_fn(w, inner, f2));
    assert(eval(w, Datum::List(inner), f1) == ok(w, Datum::Fn(lam)));
    // the call
    assert(outer[0] == Datum::List(inner));
    assert(macro_expansion(w, outer, f1) is None);
    assert(outer.skip(1) =~= Seq::<Datum>::empty());
    assert(eval_run(w, Seq::<Datum>::empty(), 0, f1).result == Ok::<Seq<Datum>, Failure>(
        Seq::empty(),
    ));
    let entered = enter_scope(w);
    reveal_with_fuel(crate::semantics::do_from, 3);
    reveal_with_fuel(crate::semantics::bind_operands, 1);
    assert(crate::semantics::bind_parameters(entered, lam, Seq::empty()) == entered);
    assert(eval(entered, e, f1) == ok(entered, e));
    assert(crate::semantics::do_from(entered, seq![e], 0, Datum::Nil, f1) == ok(entered, e));
    lemma_enter_leave(w);
    assert(apply_lambda(w, lam, Seq::empty(), f1) == ok(w, e));
    assert(apply_fn(w, lam, outer, f1) == ok(w, e));
    assert(dispatch(w, outer, f1) == ok(w, e));
}

/// The names of the special forms that the dispatch asks for before
/// `quote` differ from `quote`.
pub proof fn lemma_quote_name()
    ensures
        "quote"@ != "def!"@,
        "quote"@ != "var"@,
        "quote"@ != "let*"@,
        "quote"@ != "loop*"@,
        "quote"@ != "recur"@,
        "quote"@ != "if"@,
        "quote"@ != "do"@,
        "quote"@ != "fn*"@,
{
    reveal_strlit("def!");
    reveal_strlit("var");
    reveal_strlit("let*");
    reveal_strlit("loop*");
    reveal_strlit("recur");
    reveal_strlit("if");
    reveal_strlit("do");
    reveal_strlit("fn*");
    reveal_strlit("quote");
    assert("quote"@.len() == 5);
    assert("quote"@[0] == 'q');
    assert("def!"@.len() == 4);
    assert("var"@.len() == 3);
    assert("let*"@.len() == 4);
    assert("loop*"@[0] == 'l');
    assert("recur"@[0] == 'r');
    assert("if"@.len() == 2);
    assert("do"@.len() == 2);
    assert("fn*"@.len() == 3);
}

/// `(quote d)` evaluates to `d` and changes nothing.
pub proof fn law_quote(w: World, d: Datum, fuel: nat)
    requires
        fuel >= 1,
        !names_macro(w, "quote"@),
    ensures
        eval(w, Datum::List(seq![sym("quote"@), d]), fuel) == ok(w, d),
{
    lemma_quote_name();
    let items = seq![sym("quote"@), d];
    let f = (fuel - 1) as nat;
    assert(items[0] == sym("quote"@));
    assert(items[1] == d);
    assert(macro_expansion(w, items, f) is None);
    assert(dispatch(w, items, f) == crate::semantics::eval_quote(w, items));
}

/// Printing a value in the readable style, reading the text back inside
/// `(quote ...)` and evaluating the form gives the value: for every
/// readable value `d`, the text `(quote d)` reads as one form, and that
/// form evaluates to `d`.
pub proof fn law_print_read_round_trip(w: World, d: Datum, fuel: nat)
    requires
        crate::roundtrip::readable(d),
        fuel >= 1,
        !names_macro(w, "quote"@),
    ensures
        crate::reader::read_spec("(quote "@ + crate::printer::print(d, true) + ")"@)
            matches Ok(forms) && forms.len() == 1 && eval(w, forms[0], fuel) == ok(w, d),
{
    crate::roundtrip::law_read_quoted(d);
    law_quote(w, d, fuel);
}

/// The last slash of a text, a slash and digits stands before the digits.
pub proof fn lemma_last_slash(front: Seq<char>, tail: Seq<char>, n: int)
    requires
        all_digits(tail),
        front.len() + 1 <= n <= front.len() + 1 + tail.len(),
    ensures
        last_slash(front + seq!['/'] + tail, n) == front.len(),
    decreases n,
{
    let key = front + seq!['/'] + tail;
    if n == front.len() + 1 {
        assert(key[n - 1] == '/');
    } else {
        assert(key[n - 1] == tail[n - 2 - front.len()]);
        assert(is_digit(tail[n - 2 - front.len()]));
        lemma_last_slash(front, tail, n - 1);
    }
}

/// The level that the reserved name of a parameter encodes is the level
/// that the name was made for.
pub proof fn law_parameter_level_of_key(index: usize, level: usize)
    ensures
        parameter_level(parameter_key(index as nat, level as nat)) == Some(level),
{
    let front = key_prefix() + digits(index as nat);
    let tail = digits(level as nat);
    let key = parameter_key(index as nat, level as nat);
    lemma_digits_round_trip(level as nat);
    assert(key =~= front + seq!['/'] + tail);
    lemma_last_slash(front, tail, key.len() as int);
    assert(key.take(key_prefix().len() as int) =~= key_prefix());
    assert(key.skip(front.len() as int + 1) =~= tail);
}

/// The names of the special forms that the dispatch asks for before
/// `macroexpand` differ from `macroexpand`.
pub proof fn lemma_macroexpand_name()
    ensures
        "macroexpand"@ != "def!"@,
        "macroexpand"@ != "var"@,
        "macroexpand"@ != "let*"@,
        "macroexpand"@ != "loop*"@,
        "macroexpand"@ != "recur"@,
        "macroexpand"@ != "if"@,
        "macroexpand"@ != "do"@,
        "macroexpand"@ != "fn*"@,
        "macroexpand"@ != "quote"@,
        "macroexpand"@ != "quasiquote"@,
        "macroexpand"@ != "defmacro!"@,
{
    reveal_strlit("def!");
    reveal_strlit("var");
    reveal_strlit("let*");
    reveal_strlit("loop*");
    reveal_strlit("recur");
    reveal_strlit("if");
    reveal_strlit("do");
    reveal_strlit("fn*");
    reveal_strlit("quote");
    reveal_strlit("quasiquote");
    reveal_strlit("defmacro!");
    reveal_strlit("macroexpand");
    assert("macroexpand"@.len() == 11);
    assert("def!"@.len() == 4);
    assert("var"@.len() == 3);
    assert("let*"@.len() == 4);
    assert("loop*"@.len() == 5);
    assert("recur"@.len() == 5);
    assert("if"@.len() == 2);
    assert("do"@.len() == 2);
    assert("fn*"@.len() == 3);
    assert("quote"@.len() == 5);
    assert("quasiquote"@.len() == 10);
    assert("defmacro!"@.len() == 9);
}

/// `(macroexpand (quote l))` gives `l` for a list `l` whose head names no
/// macro, and changes nothing.
pub proof fn law_macroexpand_other_list(w: World, items: Seq<Datum>, fuel: nat)
    requires
        fuel >= 2,
        !names_macro(w, "macroexpand"@),
        !names_macro(w, "quote"@),
        items.len() == 0 || macro_of(w, items[0]) is None,
    ensures
        eval(
            w,
            Datum::List(
                seq![sym("macroexpand"@), Datum::List(seq![sym("quote"@), Datum::List(items)])],
            ),
            fuel,
        ) == ok(w, Datum::List(items)),
{
    lemma_macroexpand_name();
    let quoted = Datum::List(seq![sym("quote"@), Datum::List(items)]);
    let form = seq![sym("macroexpand"@), quoted];
    let f = (fuel - 1) as nat;
    assert(form[0] == sym("macroexpand"@));
    assert(form[1] == quoted);
    assert(macro_expansion(w, form, f) is None);
    assert(dispatch(w, form, f) == crate::semantics::eval_macroexpand(w, form, f));
    law_quote(w, Datum::List(items), f);
    law_macroexpand_idempotent(w, items, f);
}

/// A symbol stands for the same in a state and in that state with one
/// more, empty, scope.
pub proof fn lemma_enter_resolves(w: World, head: Datum)
    ensures
        macro_of(enter_scope(w), head) == macro_of(w, head),
{
    let entered = enter_scope(w);
    assert(entered.scopes.drop_last() =~= w.scopes);
    assert(entered.scopes.last() == crate::world::empty_frame());
}

/// A quoted form is analyzed to itself, and the analysis changes nothing.
pub proof fn lemma_analyze_quote(w: World, x: Datum, tracks: Tracks, level: usize, fuel: nat)
    requires
        fuel >= 1,
        !names_macro(w, "quote"@),
    ensures
        crate::semantics::analyze_form(
            w,
            Datum::List(seq![sym("quote"@), x]),
            tracks,
            level,
            fuel,
        ) == (crate::semantics::Analysis {
            world: w,
            tracks: tracks,
            result: Ok(Datum::List(seq![sym("quote"@), x])),
        }),
{
    lemma_special_names();
    lemma_quote_name();
    reveal_strlit("quote");
    reveal_strlit("catch*");
    assert("quote"@.len() == 5);
    assert("catch*"@.len() == 6);
    let quoted = seq![sym("quote"@), x];
    let f = (fuel - 1) as nat;
    assert(quoted[0] == sym("quote"@));
    assert(macro_expansion(w, quoted, f) is None);
    assert(crate::semantics::analyze_list(w, quoted, tracks, level, f)
        == (crate::semantics::Analysis { world: w, tracks: tracks, result: Ok(Datum::List(quoted)) }));
}

/// The function that `(fn* [] e)` gives where `e` is analyzed to itself.
pub open spec fn thunk(e: Datum) -> crate::value::Lambda {
    crate::value::Lambda { body: seq![e], arity: 0, level: 0, variadic: false }
}

/// `(fn* [] (quote x))` evaluates to the function whose body is
/// `(quote x)`.
pub proof fn lemma_fn_of_quote(w: World, x: Datum, fuel: nat)
    requires
        fuel >= 3,
        !names_macro(w, "fn*"@),
        !names_macro(w, "quote"@),
    ensures
        eval(
            w,
            Datum::List(
                seq![
                    sym("fn*"@),
                    Datum::Vector(Seq::empty()),
                    Datum::List(seq![sym("quote"@), x]),
                ],
            ),
            fuel,
        ) == ok(w, Datum::Fn(thunk(Datum::List(seq![sym("quote"@), x])))),
{
    lemma_special_names();
    let e = Datum::List(seq![sym("quote"@), x]);
    let inner = seq![sym("fn*"@), Datum::Vector(Seq::empty()), e];
    let f1 = (fuel - 1) as nat;
    let params = Seq::<Datum>::empty();
    let body = inner.skip(2);
    assert(body =~= seq![e]);
    let tracks = Tracks { scopes: Seq::empty(), captures: Seq::empty() };
    let inner_tracks = Tracks {
        scopes: tracks.scopes.push(crate::world::empty_frame()),
        captures: tracks.captures,
    };
    assert(parameters(params, 0, 0) == Ok::<(crate::world::Frame, bool), Failure>(
        (crate::world::empty_frame(), false),
    ));
    lemma_analyze_quote(w, x, inner_tracks, 0, f1);
    let a = analyze_lambda(w, body, params, tracks, 0, f1);
    assert(a.result == Ok::<Datum, Failure>(Datum::Fn(thunk(e))) && a.world == w) by {
        reveal_with_fuel(crate::semantics::analyze_run, 2);
        let r = crate::semantics::analyze_run(w, body, 1, inner_tracks, 0, f1);
        assert(r.result == Ok::<Seq<Datum>, Failure>(Seq::<Datum>::empty().push(e)));
        assert(Seq::<Datum>::empty().push(e) =~= seq![e]);
    }
    assert(inner[0] == sym("fn*"@));
    assert(inner[1] == Datum::Vector(params));
    assert(macro_expansion(w, inner, f1) is None);
    assert(dispatch(w, inner, f1) == eval_fn(w, inner, f1));
}

/// Calling the function whose body is `(quote x)` gives `x`.
pub proof fn lemma_call_thunk_of_quote(w: World, x: Datum, fuel: nat)
    requires
        fuel >= 2,
        !(x is FnWithCaptures),
        !names_macro(w, "quote"@),
    ensures
        apply_lambda(w, thunk(Datum::List(seq![sym("quote"@), x])), Seq::empty(), fuel) == ok(
            w,
            x,
        ),
{
    let e = Datum::List(seq![sym("quote"@), x]);
    let lam = thunk(e);
    let entered = enter_scope(w);
    lemma_enter_resolves(w, sym("quote"@));
    law_quote(entered, x, fuel);
    assert(crate::semantics::bind_parameters(entered, lam, Seq::empty()) == entered) by {
        reveal_with_fuel(crate::semantics::bind_operands, 1);
    }
    assert(crate::semantics::do_from(entered, seq![e], 0, Datum::Nil, fuel) == ok(entered, x)) by {
        reveal_with_fuel(crate::semantics::do_from, 3);
    }
    lemma_enter_leave(w);
}

/// `((fn* [] (quote x)))` evaluates to what `(quote x)` evaluates to, which
/// is `x`: a quoted form inside a function is left as it is, whatever
/// symbols it holds. (A closure as `x` is left out: calling a function
/// resolves the captures of the closure that it gives.)
pub proof fn law_thunk_of_quote(w: World, x: Datum, fuel: nat)
    requires
        fuel >= 4,
        !(x is FnWithCaptures),
        !names_macro(w, "fn*"@),
        !names_macro(w, "quote"@),
    ensures
        eval(
            w,
            Datum::List(
                seq![
                    Datum::List(
                        seq![
                            sym("fn*"@),
                            Datum::Vector(Seq::empty()),
                            Datum::List(seq![sym("quote"@), x]),
                        ],
                    ),
                ],
            ),
            fuel,
        ) == ok(w, x),
        eval(w, Datum::List(seq![sym("quote"@), x]), fuel) == ok(w, x),
{
    let e = Datum::List(seq![sym("quote"@), x]);
    let inner = seq![sym("fn*"@), Datum::Vector(Seq::empty()), e];
    let outer = seq![Datum::List(inner)];
    let f1 = (fuel - 1) as nat;
    law_quote(w, x, fuel);
    lemma_fn_of_quote(w, x, f1);
    lemma_call_thunk_of_quote(w, x, f1);
    assert(outer[0] == Datum::List(inner));
    assert(macro_expansion(w, outer, f1) is None);
    assert(outer.skip(1) =~= Seq::<Datum>::empty());
    assert(eval_run(w, Seq::<Datum>::empty(), 0, f1).result == Ok::<Seq<Datum>, Failure>(
        Seq::empty(),
    ));
    assert(apply_fn(w, thunk(e), outer, f1) == ok(w, x));
    assert(dispatch(w, outer, f1) == ok(w, x));
}

/// Adding pairs and maps to a well formed run of entries gives a well
/// formed run.
pub proof fn lemma_conj_entries_paired(entries: Seq<Datum>, items: Seq<Datum>, n: nat)
    requires
        crate::maps::paired(entries),
    ensures
        crate::prelude_spec::conj_entries(entries, items, n) matches Ok(all)
            ==> crate::maps::paired(all),
    decreases n,
{
    if !(n == 0 || n > items.len()) {
        lemma_conj_entries_paired(entries, items, (n - 1) as nat);
        match crate::prelude_spec::conj_entries(entries, items, (n - 1) as nat) {
            Ok(front) => match items[n - 1] {
                Datum::Vector(kv) => {
                    if kv.len() == 2 {
                        crate::maps::lemma_assoc_paired(front, kv[0], kv[1]);
                    }
                },
                Datum::HashMap(more) => {
                    crate::maps::lemma_assoc_all_paired(
                        front,
                        more,
                        (more.len() - more.len() % 2) as nat,
                    );
                },
                _ => {},
            },
            Err(_) => {},
        }
    }
}

/// Maps stay well formed. The map that `hash-map` builds pairs its keys
/// with values and holds no key twice; and where the map handed to
/// `assoc`, `dissoc` or `conj` is such a map, so is the map that comes
/// back.
pub proof fn law_maps_stay_well_formed(args: Seq<Datum>)
    ensures
        crate::prelude_spec::to_map_spec(args) matches Ok(Datum::HashMap(e))
            ==> crate::maps::paired(e),
        args.len() > 0 && (args[0] matches Datum::HashMap(m) && crate::maps::paired(m)) ==> {
            &&& crate::prelude_spec::assoc_spec(args) matches Ok(Datum::HashMap(e))
                ==> crate::maps::paired(e)
            &&& crate::prelude_spec::dissoc_spec(args) matches Ok(Datum::HashMap(e))
                ==> crate::maps::paired(e)
            &&& crate::prelude_spec::conj_spec(args) matches Ok(Datum::HashMap(e))
                ==> crate::maps::paired(e)
        },
{
    assert(crate::maps::paired(Seq::<Datum>::empty()));
    crate::maps::lemma_assoc_all_paired(Seq::empty(), args, args.len());
    if args.len() > 0 {
        if let Datum::HashMap(m) = args[0] {
            if crate::maps::paired(m) {
                let more = args.skip(1);
                crate::maps::lemma_assoc_all_paired(m, more, (args.len() - 1) as nat);
                crate::maps::lemma_dissoc_all_paired(m, more, (args.len() - 1) as nat);
                lemma_conj_entries_paired(m, more, more.len());
            }
        }
    }
}

/// Sets stay well formed. The set that `set` builds from another
/// collection holds no member twice; and where the set handed to `set` or
/// `conj` holds none twice, neither does the set that comes back.
pub proof fn law_sets_stay_well_formed(args: Seq<Datum>)
    ensures
        args.len() > 0 && (args[0] matches Datum::HashSet(m) ==> crate::maps::distinct(m)) ==> {
            &&& crate::prelude_spec::to_set_spec(args) matches Ok(Datum::HashSet(e))
                ==> crate::maps::distinct(e)
            &&& crate::prelude_spec::conj_spec(args) matches Ok(Datum::HashSet(e))
                ==> crate::maps::distinct(e)
        },
{
    assert(crate::maps::distinct(Seq::<Datum>::empty()));
    if args.len() > 0 {
        match args[0] {
            Datum::HashSet(m) => {
                if crate::maps::distinct(m) {
                    let more = args.skip(1);
                    crate::maps::lemma_adjoin_all_distinct(m, more, more.len());
                }
            },
            other => {
                match crate::prelude_spec::contents_of(other) {
                    Some(xs) => {
                        crate::maps::lemma_adjoin_all_distinct(Seq::empty(), xs, xs.len());
                    },
                    None => {},
                }
            },
        }
    }
}

/// A map or a set that is read or built from a literal is well formed: a
/// map literal pairs its keys with values and holds no key twice, a set
/// literal holds no member twice, in what the text stands for and in what
/// it evaluates to.
pub proof fn law_literal_maps_are_well_formed(x: crate::reader::Syntax, w: World, form: Datum, fuel: nat)
    ensures
        crate::reader::lower(x) matches Ok(Datum::HashMap(e)) ==> crate::maps::paired(e),
        crate::reader::lower(x) matches Ok(Datum::HashSet(m)) ==> crate::maps::distinct(m),
        (form is HashMap || form is HashSet) ==> {
            &&& eval(w, form, fuel).result matches Ok(Datum::HashMap(e))
                ==> crate::maps::paired(e)
            &&& eval(w, form, fuel).result matches Ok(Datum::HashSet(m))
                ==> crate::maps::distinct(m)
        },
{
    assert(crate::maps::paired(Seq::<Datum>::empty()));
    assert(crate::maps::distinct(Seq::<Datum>::empty()));
    match x {
        crate::reader::Syntax::HashMap(xs) => {
            if let Ok(items) = crate::reader::lower_all(xs, xs.len()) {
                crate::maps::lemma_assoc_all_paired(Seq::empty(), items, items.len());
            }
        },
        crate::reader::Syntax::HashSet(xs) => {
            if let Ok(items) = crate::reader::lower_all(xs, xs.len()) {
                crate::maps::lemma_adjoin_all_distinct(Seq::empty(), items, items.len());
            }
        },
        _ => {},
    }
    if fuel > 0 {
        let f = (fuel - 1) as nat;
        match form {
            Datum::HashMap(items) => {
                if let Ok(values) = eval_run(w, items, items.len(), f).result {
                    crate::maps::lemma_assoc_all_paired(
                        Seq::empty(),
                        values,
                        (values.len() - values.len() % 2) as nat,
                    );
                }
            },
            Datum::HashSet(items) => {
                if let Ok(values) = eval_run(w, items, items.len(), f).result {
                    crate::maps::lemma_adjoin_all_distinct(Seq::empty(), values, values.len());
                }
            },
            _ => {},
        }
    }
}

} // verus!
