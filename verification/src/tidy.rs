//! A state is tidy where each of its scopes, of its namespaces and of its
//! two runs of files gives each name one value: the names and what they
//! are bound to pair up, and no name occurs twice. Every operation on a
//! state keeps it tidy.
use crate::semantics::{assign, bind_names, bind_operands, bind_parameters, declare};
use crate::value::{Datum, Lambda};
use crate::world::{
    bind, empty_frame, enter_scope, frame_put, frame_wf, intern_fresh, intern_in, leave_scope,
    lemma_frame_put_wf, lemma_space_without_wf, lemma_unique_push, space_place, space_wf,
    space_without, unintern, var_fresh, Frame, Space, World,
};
use vstd::prelude::*;

verus! {

/// Whether every scope of a stack is well formed.
#[verifier::opaque]
pub open spec fn tidy_scopes(scopes: Seq<Frame>) -> bool {
    forall|i: int| 0 <= i < scopes.len() ==> frame_wf(#[trigger] scopes[i])
}

/// Whether every namespace of a run is well formed.
#[verifier::opaque]
pub open spec fn tidy_spaces(namespaces: Seq<Space>) -> bool {
    forall|k: int| 0 <= k < namespaces.len() ==> space_wf(#[trigger] namespaces[k])
}

/// Whether a run of files is well formed.
#[verifier::opaque]
pub open spec fn tidy_files(files: Frame) -> bool {
    frame_wf(files)
}

/// Whether a state is tidy.
pub open spec fn tidy(w: World) -> bool {
    &&& tidy_scopes(w.scopes)
    &&& tidy_spaces(w.namespaces)
    &&& tidy_files(w.files)
    &&& tidy_files(w.written)
}

/// A part of a tidy stack of scopes is tidy, and so are two tidy stacks
/// one upon the other.
pub proof fn lemma_scopes_parts(scopes: Seq<Frame>, more: Seq<Frame>, k: int)
    requires
        tidy_scopes(scopes),
        0 <= k <= scopes.len(),
    ensures
        tidy_scopes(scopes.take(k)),
        tidy_scopes(scopes.skip(k)),
        tidy_scopes(more) ==> tidy_scopes(more + scopes),
        tidy_scopes(Seq::<Frame>::empty()),
{
    reveal(tidy_scopes);
    assert forall|i: int| 0 <= i < scopes.take(k).len() implies frame_wf(
        #[trigger] scopes.take(k)[i],
    ) by {
        assert(scopes.take(k)[i] == scopes[i]);
    }
    assert forall|i: int| 0 <= i < scopes.skip(k).len() implies frame_wf(
        #[trigger] scopes.skip(k)[i],
    ) by {
        assert(scopes.skip(k)[i] == scopes[i + k]);
    }
    if tidy_scopes(more) {
        assert forall|i: int| 0 <= i < (more + scopes).len() implies frame_wf(
            #[trigger] (more + scopes)[i],
        ) by {
            if i < more.len() {
                assert((more + scopes)[i] == more[i]);
            } else {
                assert((more + scopes)[i] == scopes[i - more.len()]);
            }
        }
    }
}

/// Writing a file keeps a run of files tidy.
pub proof fn lemma_files_put(files: Frame, path: Seq<char>, contents: Datum)
    requires
        tidy_files(files),
    ensures
        tidy_files(frame_put(files, path, contents)),
{
    reveal(tidy_files);
    lemma_frame_put_wf(files, path, contents);
}

/// The scope without bindings is well formed.
pub proof fn lemma_empty_frame_wf()
    ensures
        frame_wf(empty_frame()),
{
}

/// Opening and closing a scope keep a state tidy.
pub proof fn lemma_scope_tidy(w: World)
    requires
        tidy(w),
    ensures
        tidy(enter_scope(w)),
        tidy(leave_scope(w)),
{
    reveal(tidy_scopes);
    reveal(tidy_spaces);
    reveal(tidy_files);
    lemma_empty_frame_wf();
    let e = enter_scope(w);
    assert forall|i: int| 0 <= i < e.scopes.len() implies frame_wf(#[trigger] e.scopes[i]) by {
        if i < w.scopes.len() {
            assert(e.scopes[i] == w.scopes[i]);
        }
    }
    let l = leave_scope(w);
    assert forall|i: int| 0 <= i < l.scopes.len() implies frame_wf(#[trigger] l.scopes[i]) by {
        assert(l.scopes[i] == w.scopes[i]);
    }
}

/// Binding a name keeps a state tidy.
pub proof fn lemma_bind_tidy(w: World, name: Seq<char>, value: Datum)
    requires
        tidy(w),
    ensures
        tidy(bind(w, name, value)),
{
    reveal(tidy_scopes);
    reveal(tidy_spaces);
    reveal(tidy_files);
    lemma_empty_frame_wf();
    let b = bind(w, name, value);
    if w.scopes.len() == 0 {
        lemma_frame_put_wf(empty_frame(), name, value);
    } else {
        lemma_frame_put_wf(w.scopes.last(), name, value);
        assert forall|i: int| 0 <= i < b.scopes.len() implies frame_wf(#[trigger] b.scopes[i]) by {
            if i < w.scopes.len() - 1 {
                assert(b.scopes[i] == w.scopes[i]);
            }
        }
    }
}

/// Binding names keeps a state tidy.
pub proof fn lemma_bind_names_tidy(w: World, names: Seq<Seq<char>>, values: Seq<Datum>, n: nat)
    requires
        tidy(w),
    ensures
        tidy(bind_names(w, names, values, n)),
    decreases n,
{
    if !(n == 0 || n > names.len() || n > values.len()) {
        lemma_bind_names_tidy(w, names, values, (n - 1) as nat);
        lemma_bind_tidy(bind_names(w, names, values, (n - 1) as nat), names[n - 1], values[n - 1]);
    }
}

/// Binding operands keeps a state tidy.
pub proof fn lemma_bind_operands_tidy(w: World, level: usize, args: Seq<Datum>, n: nat)
    requires
        tidy(w),
    ensures
        tidy(bind_operands(w, level, args, n)),
    decreases n,
{
    if !(n == 0 || n > args.len()) {
        lemma_bind_operands_tidy(w, level, args, (n - 1) as nat);
        lemma_bind_tidy(
            bind_operands(w, level, args, (n - 1) as nat),
            crate::params::parameter_key((n - 1) as nat, level as nat),
            args[n - 1],
        );
    }
}

/// Binding the parameters of a function keeps a state tidy.
pub proof fn lemma_bind_parameters_tidy(w: World, lam: Lambda, args: Seq<Datum>)
    requires
        tidy(w),
    ensures
        tidy(bind_parameters(w, lam, args)),
{
    lemma_bind_operands_tidy(w, lam.level, args, lam.arity as nat);
    if lam.variadic {
        lemma_bind_tidy(
            bind_operands(w, lam.level, args, lam.arity as nat),
            crate::params::parameter_key(lam.arity as nat, lam.level as nat),
            Datum::List(args.skip(lam.arity as int)),
        );
    }
}

/// Declaring names keeps a state tidy.
pub proof fn lemma_declare_tidy(w: World, mentioned: Seq<Seq<char>>, n: nat)
    requires
        tidy(w),
    ensures
        tidy(declare(w, mentioned, n)),
    decreases n,
{
    if !(n == 0 || n > mentioned.len()) {
        lemma_declare_tidy(w, mentioned, (n - 1) as nat);
        let before = declare(w, mentioned, (n - 1) as nat);
        lemma_bind_tidy(
            var_fresh(before, None),
            mentioned[n - 1],
            Datum::Var(before.vars.len() as usize, Seq::empty(), mentioned[n - 1]),
        );
    }
}

/// Giving a name a value keeps a state tidy.
pub proof fn lemma_assign_tidy(w: World, name: Seq<char>, value: Datum)
    requires
        tidy(w),
    ensures
        tidy(assign(w, name, value)),
{
    lemma_bind_tidy(w, name, value);
}

/// Interning a var keeps a state tidy.
pub proof fn lemma_intern_tidy(w: World, ns: Seq<char>, id: Seq<char>, content: Option<Datum>)
    requires
        tidy(w),
    ensures
        tidy(intern_in(w, ns, id, content).0),
{
    reveal(tidy_scopes);
    reveal(tidy_spaces);
    reveal(tidy_files);
    match space_place(w.namespaces, ns, 0) {
        None => {},
        Some(k) => {
            crate::laws::lemma_space_place_in_range(w.namespaces, ns, 0);
            let sp = w.namespaces[k];
            let cleared = space_without(sp, id);
            lemma_space_without_wf(sp, id);
            lemma_unique_push(cleared.names, id);
            let after = intern_fresh(w, k, ns, id, content).0;
            assert forall|j: int| 0 <= j < after.namespaces.len() implies space_wf(
                #[trigger] after.namespaces[j],
            ) by {
                if j != k {
                    assert(after.namespaces[j] == w.namespaces[j]);
                }
            }
        },
    }
}

/// Taking a name out of the current namespace keeps a state tidy.
pub proof fn lemma_unintern_tidy(w: World, id: Seq<char>)
    requires
        tidy(w),
    ensures
        tidy(unintern(w, id)),
{
    reveal(tidy_scopes);
    reveal(tidy_spaces);
    reveal(tidy_files);
    match space_place(w.namespaces, w.current_namespace, 0) {
        None => {},
        Some(k) => {
            crate::laws::lemma_space_place_in_range(w.namespaces, w.current_namespace, 0);
            lemma_space_without_wf(w.namespaces[k], id);
            let after = unintern(w, id);
            assert forall|j: int| 0 <= j < after.namespaces.len() implies space_wf(
                #[trigger] after.namespaces[j],
            ) by {
                if j != k {
                    assert(after.namespaces[j] == w.namespaces[j]);
                }
            }
        },
    }
}

/// Every operation on a state keeps it tidy.
pub proof fn lemma_tidy_everywhere()
    ensures
        forall|w: World| tidy(w) ==> tidy(#[trigger] enter_scope(w)),
        forall|w: World| tidy(w) ==> tidy(#[trigger] leave_scope(w)),
        forall|w: World, name: Seq<char>, value: Datum|
            tidy(w) ==> tidy(#[trigger] bind(w, name, value)),
        forall|w: World, name: Seq<char>, value: Datum|
            tidy(w) ==> tidy(#[trigger] assign(w, name, value)),
        forall|w: World, ns: Seq<char>, id: Seq<char>, content: Option<Datum>|
            tidy(w) ==> tidy((#[trigger] intern_in(w, ns, id, content)).0),
        forall|w: World, id: Seq<char>| tidy(w) ==> tidy(#[trigger] unintern(w, id)),
        forall|files: Frame, path: Seq<char>, contents: Datum|
            tidy_files(files) ==> tidy_files(#[trigger] frame_put(files, path, contents)),
        forall|scopes: Seq<Frame>, k: int|
            tidy_scopes(scopes) && 0 <= k <= scopes.len() ==> tidy_scopes(
                #[trigger] scopes.take(k),
            ),
        forall|scopes: Seq<Frame>, k: int|
            tidy_scopes(scopes) && 0 <= k <= scopes.len() ==> tidy_scopes(
                #[trigger] scopes.skip(k),
            ),
        forall|scopes: Seq<Frame>, more: Seq<Frame>|
            tidy_scopes(scopes) && tidy_scopes(more) ==> tidy_scopes(#[trigger] (more + scopes)),
{
    assert forall|w: World| tidy(w) implies tidy(#[trigger] enter_scope(w)) by {
        lemma_scope_tidy(w);
    }
    assert forall|w: World| tidy(w) implies tidy(#[trigger] leave_scope(w)) by {
        lemma_scope_tidy(w);
    }
    assert forall|w: World, name: Seq<char>, value: Datum| tidy(w) implies tidy(
        #[trigger] bind(w, name, value),
    ) by {
        lemma_bind_tidy(w, name, value);
    }
    assert forall|w: World, name: Seq<char>, value: Datum| tidy(w) implies tidy(
        #[trigger] assign(w, name, value),
    ) by {
        lemma_assign_tidy(w, name, value);
    }
    assert forall|w: World, ns: Seq<char>, id: Seq<char>, content: Option<Datum>|
        tidy(w) implies tidy((#[trigger] intern_in(w, ns, id, content)).0) by {
        lemma_intern_tidy(w, ns, id, content);
    }
    assert forall|w: World, id: Seq<char>| tidy(w) implies tidy(#[trigger] unintern(w, id)) by {
        lemma_unintern_tidy(w, id);
    }
    assert forall|files: Frame, path: Seq<char>, contents: Datum| tidy_files(files) implies tidy_files(
        #[trigger] frame_put(files, path, contents),
    ) by {
        lemma_files_put(files, path, contents);
    }
    assert forall|scopes: Seq<Frame>, k: int|
        tidy_scopes(scopes) && 0 <= k <= scopes.len() implies tidy_scopes(
        #[trigger] scopes.take(k),
    ) by {
        lemma_scopes_parts(scopes, Seq::empty(), k);
    }
    assert forall|scopes: Seq<Frame>, k: int|
        tidy_scopes(scopes) && 0 <= k <= scopes.len() implies tidy_scopes(
        #[trigger] scopes.skip(k),
    ) by {
        lemma_scopes_parts(scopes, Seq::empty(), k);
    }
    assert forall|scopes: Seq<Frame>, more: Seq<Frame>|
        tidy_scopes(scopes) && tidy_scopes(more) implies tidy_scopes(
        #[trigger] (more + scopes),
    ) by {
        lemma_scopes_parts(scopes, more, 0);
    }
}

/// Adding a namespace keeps a state tidy.
pub proof fn lemma_with_space_tidy(w: World, name: Seq<char>)
    requires
        tidy(w),
    ensures
        tidy(crate::namespace::with_space(w, name)),
{
    reveal(tidy_spaces);
    let after = crate::namespace::with_space(w, name);
    assert forall|j: int| 0 <= j < after.namespaces.len() implies space_wf(
        #[trigger] after.namespaces[j],
    ) by {
        if j < w.namespaces.len() {
            assert(after.namespaces[j] == w.namespaces[j]);
        }
    }
}

/// Binding the special forms keeps a state tidy.
pub proof fn lemma_special_forms_tidy(w: World, n: nat)
    requires
        tidy(w),
    ensures
        tidy(crate::boot::with_special_forms(w, n)),
    decreases n,
{
    if n > 0 {
        lemma_special_forms_tidy(w, (n - 1) as nat);
        lemma_tidy_everywhere();
    }
}

/// Interning the primitives keeps a state tidy.
pub proof fn lemma_primitives_tidy(w: World, n: nat)
    requires
        tidy(w),
    ensures
        tidy(crate::boot::with_primitives(w, n)),
    decreases n,
{
    if n > 0 {
        lemma_primitives_tidy(w, (n - 1) as nat);
        lemma_tidy_everywhere();
    }
}

/// Evaluating forms one after the other keeps a state tidy.
pub proof fn lemma_evaluate_each_tidy(w: World, forms: Seq<Datum>, i: int, fuel: nat)
    requires
        tidy(w),
    ensures
        tidy(crate::boot::evaluate_each(w, forms, i, fuel).0),
    decreases forms.len() - i,
{
    if !(i < 0 || i >= forms.len()) {
        crate::balance::law_evaluate_keeps_scopes(w, forms[i], fuel);
        let o = crate::semantics::evaluate(w, forms[i], fuel);
        if o.result is Ok {
            lemma_evaluate_each_tidy(o.world, forms, i + 1, fuel);
        }
    }
}

/// Tidiness is an invariant of the interpreter: the state that an
/// interpreter starts from is tidy, with whatever core source it was
/// built, and evaluating a form keeps a tidy state tidy, however the
/// evaluation ends.
pub proof fn law_states_are_tidy(source: Seq<char>, w: World, form: Datum, fuel: nat)
    ensures
        tidy(crate::boot::initial_world()),
        tidy(crate::boot::evaluate_source(crate::boot::initial_world(), source, fuel).0),
        tidy(w) ==> tidy(crate::semantics::evaluate(w, form, fuel).world),
{
    reveal(tidy_scopes);
    reveal(tidy_spaces);
    reveal(tidy_files);
    let bare = World {
        current_namespace: crate::namespace::DEFAULT_NAME@,
        namespaces: Seq::empty(),
        vars: Seq::empty(),
        atoms: Seq::empty(),
        scopes: Seq::empty(),
        symbol_index: None,
        output: Seq::empty(),
        files: empty_frame(),
        written: empty_frame(),
        lines: Seq::empty(),
        clock: 0,
        live: false,
        ended: false,
        moments: Seq::empty(),
        answers: Seq::empty(),
        wanted: crate::world::Wish::Nothing,
    };
    assert(tidy(bare));
    lemma_special_forms_tidy(bare, crate::boot::special_count());
    let scoped = crate::boot::with_special_forms(bare, crate::boot::special_count());
    lemma_with_space_tidy(scoped, crate::namespace::DEFAULT_NAME@);
    let spaced = crate::namespace::with_space(scoped, crate::namespace::DEFAULT_NAME@);
    lemma_intern_tidy(
        spaced,
        crate::namespace::DEFAULT_NAME@,
        crate::boot::COMMAND_LINE_ARGS_SYMBOL@,
        Some(Datum::List(Seq::empty())),
    );
    let argued = intern_in(
        spaced,
        crate::namespace::DEFAULT_NAME@,
        crate::boot::COMMAND_LINE_ARGS_SYMBOL@,
        Some(Datum::List(Seq::empty())),
    ).0;
    lemma_primitives_tidy(argued, crate::boot::primitive_count());
    match crate::reader::read_spec(source) {
        Ok(forms) => lemma_evaluate_each_tidy(crate::boot::initial_world(), forms, 0, fuel),
        Err(e) => {},
    }
    crate::balance::law_evaluate_keeps_scopes(w, form, fuel);
}

} // verus!
