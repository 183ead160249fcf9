//! When two values are equal.
//!
//! Numbers, strings and names are equal when they are the same. A list and a
//! vector are equal when their items are equal position by position. Maps
//! are equal when they have as many entries and each entry of one is found
//! in the other; sets likewise. Vars and atoms are equal when they are the
//! same cell. The `thrown` mark of an exception does not count.
use crate::collections::{data, lemma_data_index, list_to_vec, vector_to_vec};
use crate::value::{texts, Datum, FnImpl, Value};
use vstd::prelude::*;

verus! {

/// The step from one candidate to the next: over every item, or over the
/// keys of a map only.
pub open spec fn stride(pairs: bool) -> int {
    if pairs {
        2
    } else {
        1
    }
}

/// Whether two terms are equal.
pub open spec fn datum_equal(a: Datum, b: Datum) -> bool
    decreases a, 0nat,
{
    match a {
        Datum::Nil => b is Nil,
        Datum::Bool(x) => b == Datum::Bool(x),
        Datum::Number(x) => b == Datum::Number(x),
        Datum::String(x) => b == Datum::String(x),
        Datum::Keyword(id, ns) => b == Datum::Keyword(id, ns),
        Datum::Symbol(id, ns) => b == Datum::Symbol(id, ns),
        Datum::List(xs) => match b {
            Datum::List(ys) => runs_equal(xs, ys),
            Datum::Vector(ys) => runs_equal(xs, ys),
            _ => false,
        },
        Datum::Vector(xs) => match b {
            Datum::List(ys) => runs_equal(xs, ys),
            Datum::Vector(ys) => runs_equal(xs, ys),
            _ => false,
        },
        Datum::HashMap(xs) => match b {
            Datum::HashMap(ys) => xs.len() == ys.len() && entries_within(xs, ys, xs.len() / 2),
            _ => false,
        },
        Datum::HashSet(xs) => match b {
            Datum::HashSet(ys) => xs.len() == ys.len() && members_within(xs, ys, xs.len()),
            _ => false,
        },
        Datum::Fn(f) => match b {
            Datum::Fn(g) => f.arity == g.arity && f.level == g.level && f.variadic == g.variadic
                && runs_equal(f.body, g.body),
            _ => false,
        },
        Datum::FnWithCaptures(f, names, values) => match b {
            Datum::FnWithCaptures(g, others, their_values) => f.arity == g.arity && f.level
                == g.level && f.variadic == g.variadic && runs_equal(f.body, g.body) && names
                == others && runs_equal(values, their_values),
            _ => false,
        },
        Datum::Primitive(p) => b == Datum::Primitive(p),
        Datum::Var(cell, ns, id) => b == Datum::Var(cell, ns, id),
        Datum::Recur(xs) => match b {
            Datum::Recur(ys) => runs_equal(xs, ys),
            _ => false,
        },
        Datum::Atom(cell) => b == Datum::Atom(cell),
        Datum::Macro(f) => match b {
            Datum::Macro(g) => f.arity == g.arity && f.level == g.level && f.variadic
                == g.variadic && runs_equal(f.body, g.body),
            _ => false,
        },
        Datum::Exception(message, payload, _) => match b {
            Datum::Exception(other, theirs, _) => message == other && datum_equal(
                *payload,
                *theirs,
            ),
            _ => false,
        },
    }
}

/// Whether two runs are as long and equal item by item.
pub open spec fn runs_equal(xs: Seq<Datum>, ys: Seq<Datum>) -> bool
    decreases xs, 1nat,
{
    xs.len() == ys.len() && forall|i: int|
        0 <= i < xs.len() ==> datum_equal(#[trigger] xs[i], ys[i])
}

/// The first place at or after `from`, `from` plus the stride and so on,
/// where `hay` holds an item equal to `needle`.
pub open spec fn find(needle: Datum, hay: Seq<Datum>, from: int, pairs: bool) -> Option<int>
    decreases needle, 1 + hay.len() - from,
{
    if from < 0 || from >= hay.len() {
        None
    } else if datum_equal(needle, hay[from]) {
        Some(from)
    } else {
        find(needle, hay, from + stride(pairs), pairs)
    }
}

/// Whether each of the first `n` items of `xs` is found in `ys`.
pub open spec fn members_within(xs: Seq<Datum>, ys: Seq<Datum>, n: nat) -> bool
    decreases xs, 1nat,
{
    forall|i: int| 0 <= i < n && i < xs.len() ==> find(#[trigger] xs[i], ys, 0, false) is Some
}

/// Whether each of the first `n` entries of `xs` is found in `ys`.
pub open spec fn entries_within(xs: Seq<Datum>, ys: Seq<Datum>, n: nat) -> bool
    decreases xs, 1nat,
{
    forall|i: int|
        0 <= i < n && 2 * i + 1 < xs.len() ==> {
            let key = #[trigger] xs[2 * i];
            match find(key, ys, 0, true) {
                Some(j) => j + 1 < ys.len() && datum_equal(xs[2 * i + 1], ys[j + 1]),
                None => false,
            }
        }
}

/// One entry that is not found shows that not all entries are.
pub proof fn lemma_entry_missing(xs: Seq<Datum>, ys: Seq<Datum>, i: int)
    requires
        0 <= i,
        2 * i + 1 < xs.len(),
        match find(xs[2 * i], ys, 0, true) {
            Some(j) => !(j + 1 < ys.len() && datum_equal(xs[2 * i + 1], ys[j + 1])),
            None => true,
        },
    ensures
        !entries_within(xs, ys, xs.len() / 2),
{
    let key = xs[2 * i];
    assert(i < xs.len() / 2);
}

/// Whether two optional strings are the same.
pub fn same_opt_text(a: &Option<String>, b: &Option<String>) -> (r: bool)
    ensures
        r == (crate::value::opt_text(*a) == crate::value::opt_text(*b)),
{
    match a {
        Some(x) => match b {
            Some(y) => *x == *y,
            None => false,
        },
        None => b.is_none(),
    }
}

/// Whether two runs of strings are the same.
pub fn same_texts(a: &Vec<String>, b: &Vec<String>) -> (r: bool)
    ensures
        r == (texts(a@) == texts(b@)),
{
    if a.len() != b.len() {
        assert(texts(a@).len() != texts(b@).len());
        return false;
    }
    let mut i: usize = 0;
    while i < a.len()
        invariant
            0 <= i <= a.len(),
            a.len() == b.len(),
            forall|k: int| 0 <= k < i ==> a@[k]@ == b@[k]@,
        decreases a.len() - i,
    {
        if a[i] != b[i] {
            assert(texts(a@)[i as int] != texts(b@)[i as int]);
            return false;
        }
        i = i + 1;
    }
    assert(texts(a@) =~= texts(b@));
    true
}

/// Whether two runs of values are as long and equal item by item.
pub(crate) fn equal_runs(xs: &Vec<Value>, ys: &Vec<Value>, Ghost(parent): Ghost<Datum>) -> (r: bool)
    requires
        decreases_to!(parent => data(xs@)),
    ensures
        r == runs_equal(data(xs@), data(ys@)),
    decreases parent, 0nat,
{
    if xs.len() != ys.len() {
        return false;
    }
    let mut i: usize = 0;
    while i < xs.len()
        invariant
            0 <= i <= xs.len(),
            xs.len() == ys.len(),
            decreases_to!(parent => data(xs@)),
            forall|k: int| 0 <= k < i ==> datum_equal(#[trigger] data(xs@)[k], data(ys@)[k]),
        decreases xs.len() - i,
    {
        proof {
            lemma_data_index(xs@, i as int);
            lemma_data_index(ys@, i as int);
            assert(decreases_to!(data(xs@) => data(xs@)[i as int]));
        }
        if !equal(&xs[i], &ys[i]) {
            return false;
        }
        i = i + 1;
    }
    true
}

/// Whether each entry of `xs` is found in `ys`.
pub(crate) fn entries_found(xs: &Vec<Value>, ys: &Vec<Value>, Ghost(parent): Ghost<Datum>) -> (r:
    bool)
    requires
        decreases_to!(parent => data(xs@)),
    ensures
        r == entries_within(data(xs@), data(ys@), data(xs@).len() / 2),
    decreases parent, 0nat,
{
    let mut i: usize = 0;
    while i + 1 < xs.len()
        invariant
            0 <= i,
            i % 2 == 0,
            decreases_to!(parent => data(xs@)),
            entries_within(data(xs@), data(ys@), (i / 2) as nat),
        decreases xs.len() - i,
    {
        proof {
            lemma_data_index(xs@, i as int);
            lemma_data_index(xs@, i + 1);
            assert(decreases_to!(data(xs@) => data(xs@)[i as int]));
            assert(decreases_to!(data(xs@) => data(xs@)[i + 1]));
            assert(2 * (i as int / 2) == i);
        }
        match find_in(&xs[i], ys, true) {
            Some(j) => {
                if j + 1 >= ys.len() {
                    proof {
                        lemma_entry_missing(data(xs@), data(ys@), i as int / 2);
                    }
                    return false;
                }
                proof {
                    lemma_data_index(ys@, j + 1);
                }
                if !equal(&xs[i + 1], &ys[j + 1]) {
                    proof {
                        lemma_entry_missing(data(xs@), data(ys@), i as int / 2);
                    }
                    return false;
                }
            },
            None => {
                proof {
                    lemma_entry_missing(data(xs@), data(ys@), i as int / 2);
                }
                return false;
            },
        }
        assert(entries_within(data(xs@), data(ys@), ((i + 2) / 2) as nat)) by {
            assert forall|k: int|
                0 <= k < (i + 2) / 2 && 2 * k + 1 < data(xs@).len() implies {
                let key = #[trigger] data(xs@)[2 * k];
                match find(key, data(ys@), 0, true) {
                    Some(j) => j + 1 < data(ys@).len() && datum_equal(
                        data(xs@)[2 * k + 1],
                        data(ys@)[j + 1],
                    ),
                    None => false,
                }
            } by {
                if k < i / 2 {
                } else {
                    assert(k == i / 2);
                }
            }
        }
        i = i + 2;
    }
    true
}

/// Whether each member of `xs` is found in `ys`.
pub(crate) fn members_found(xs: &Vec<Value>, ys: &Vec<Value>, Ghost(parent): Ghost<Datum>) -> (r:
    bool)
    requires
        decreases_to!(parent => data(xs@)),
    ensures
        r == members_within(data(xs@), data(ys@), data(xs@).len()),
    decreases parent, 0nat,
{
    let mut i: usize = 0;
    while i < xs.len()
        invariant
            0 <= i <= xs.len(),
            decreases_to!(parent => data(xs@)),
            members_within(data(xs@), data(ys@), i as nat),
        decreases xs.len() - i,
    {
        proof {
            lemma_data_index(xs@, i as int);
            assert(decreases_to!(data(xs@) => data(xs@)[i as int]));
        }
        if find_in(&xs[i], ys, false).is_none() {
            assert(!members_within(data(xs@), data(ys@), data(xs@).len())) by {
                assert(find(data(xs@)[i as int], data(ys@), 0, false) is None);
            }
            return false;
        }
        i = i + 1;
    }
    true
}

/// Whether two analyzed functions are equal.
pub(crate) fn equal_fns(f: &FnImpl, g: &FnImpl, Ghost(parent): Ghost<Datum>) -> (r: bool)
    requires
        decreases_to!(parent => f@.body),
    ensures
        r == (f.arity == g.arity && f.level == g.level && f.variadic == g.variadic && runs_equal(
            f@.body,
            g@.body,
        )),
    decreases parent, 1nat,
{
    if f.arity != g.arity || f.level != g.level || f.variadic != g.variadic {
        return false;
    }
    let xs = list_to_vec(&f.body);
    let ys = list_to_vec(&g.body);
    equal_runs(&xs, &ys, Ghost(parent))
}

/// The first place, by the stride, where `hay` holds an item equal to
/// `needle`.
pub fn find_in(needle: &Value, hay: &Vec<Value>, pairs: bool) -> (r: Option<usize>)
    ensures
        match r {
            Some(i) => find(needle@, data(hay@), 0, pairs) == Some(i as int) && i < hay.len(),
            None => find(needle@, data(hay@), 0, pairs) is None,
        },
    decreases needle@, 3nat,
{
    let mut i: usize = 0;
    while i < hay.len()
        invariant
            0 <= i <= hay.len() + 1,
            find(needle@, data(hay@), 0, pairs) == find(needle@, data(hay@), i as int, pairs),
        decreases hay.len() + 2 - i,
    {
        proof {
            lemma_data_index(hay@, i as int);
        }
        if equal(needle, &hay[i]) {
            return Some(i);
        }
        if pairs {
            if i >= usize::MAX - 1 {
                return None;
            }
            i = i + 2;
        } else {
            i = i + 1;
        }
    }
    None
}

/// Whether two values are equal.
pub fn equal(a: &Value, b: &Value) -> (r: bool)
    ensures
        r == datum_equal(a@, b@),
    decreases a@, 2nat,
{
    match a {
        Value::Nil => match b {
            Value::Nil => true,
            _ => false,
        },
        Value::Bool(x) => match b {
            Value::Bool(y) => *x == *y,
            _ => false,
        },
        Value::Number(x) => match b {
            Value::Number(y) => *x == *y,
            _ => false,
        },
        Value::String(x) => match b {
            Value::String(y) => *x == *y,
            _ => false,
        },
        Value::Keyword(id, ns) => match b {
            Value::Keyword(other, their_ns) => *id == *other && same_opt_text(ns, their_ns),
            _ => false,
        },
        Value::Symbol(id, ns) => match b {
            Value::Symbol(other, their_ns) => *id == *other && same_opt_text(ns, their_ns),
            _ => false,
        },
        Value::List(l) => {
            assert(decreases_to!(a@ => a@->List_0));
            match b {
                Value::List(m) => equal_runs(&list_to_vec(l), &list_to_vec(m), Ghost(a@)),
                Value::Vector(m) => equal_runs(&list_to_vec(l), &vector_to_vec(m), Ghost(a@)),
                _ => false,
            }
        },
        Value::Vector(l) => {
            assert(decreases_to!(a@ => a@->Vector_0));
            match b {
                Value::List(m) => equal_runs(&vector_to_vec(l), &list_to_vec(m), Ghost(a@)),
                Value::Vector(m) => equal_runs(&vector_to_vec(l), &vector_to_vec(m), Ghost(a@)),
                _ => false,
            }
        },
        Value::HashMap(m) => {
            assert(decreases_to!(a@ => a@->HashMap_0));
            match b {
                Value::HashMap(n) => {
                    let xs = vector_to_vec(&m.entries);
                    let ys = vector_to_vec(&n.entries);
                    xs.len() == ys.len() && entries_found(&xs, &ys, Ghost(a@))
                },
                _ => false,
            }
        },
        Value::HashSet(m) => {
            assert(decreases_to!(a@ => a@->HashSet_0));
            match b {
                Value::HashSet(n) => {
                    let xs = vector_to_vec(&m.members);
                    let ys = vector_to_vec(&n.members);
                    xs.len() == ys.len() && members_found(&xs, &ys, Ghost(a@))
                },
                _ => false,
            }
        },
        Value::Fn(f) => {
            assert(decreases_to!(a@ => a@->Fn_0));
            assert(decreases_to!(a@->Fn_0 => a@->Fn_0.body));
            match b {
                Value::Fn(g) => equal_fns(f, g, Ghost(a@)),
                _ => false,
            }
        },
        Value::FnWithCaptures(c) => {
            assert(decreases_to!(a@ => a@->FnWithCaptures_0));
            assert(decreases_to!(a@->FnWithCaptures_0 => a@->FnWithCaptures_0.body));
            assert(decreases_to!(a@ => a@->FnWithCaptures_2));
            match b {
                Value::FnWithCaptures(d) => {
                    equal_fns(&c.f, &d.f, Ghost(a@)) && same_texts(&c.names, &d.names)
                        && equal_runs(
                        &vector_to_vec(&c.values),
                        &vector_to_vec(&d.values),
                        Ghost(a@),
                    )
                },
                _ => false,
            }
        },
        Value::Primitive(p) => match b {
            Value::Primitive(q) => *p == *q,
            _ => false,
        },
        Value::Var(v) => match b {
            Value::Var(w) => v.cell == w.cell && v.namespace == w.namespace && v.identifier
                == w.identifier,
            _ => false,
        },
        Value::Recur(l) => {
            assert(decreases_to!(a@ => a@->Recur_0));
            match b {
                Value::Recur(m) => equal_runs(&vector_to_vec(l), &vector_to_vec(m), Ghost(a@)),
                _ => false,
            }
        },
        Value::Atom(cell) => match b {
            Value::Atom(other) => *cell == *other,
            _ => false,
        },
        Value::Macro(f) => {
            assert(decreases_to!(a@ => a@->Macro_0));
            assert(decreases_to!(a@->Macro_0 => a@->Macro_0.body));
            match b {
                Value::Macro(g) => equal_fns(f, g, Ghost(a@)),
                _ => false,
            }
        },
        Value::Exception(e) => {
            assert(decreases_to!(a@ => a@->Exception_1));
            match b {
                Value::Exception(f) => e.message == f.message && equal(&e.data, &f.data),
                _ => false,
            }
        },
    }
}

} // verus!
