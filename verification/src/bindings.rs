//! The bindings of `let*`: their names, their forms, and the names that a
//! form mentions before they are bound.
use crate::collections::{
    data, lemma_data_index, lemma_data_push, list_to_vec, vector_clone, vector_to_vec,
};
use crate::errors::{EvaluationError, EvaluationResult, Failure, SyntaxError};
use crate::state::find_name;
use crate::value::{lemma_texts_push, texts, Datum, Value};
use crate::world::place;
use vstd::prelude::*;

verus! {

/// The names and the value forms of the bindings of a `let*`, in order.
pub struct LetBindings {
    pub names: Vec<String>,
    pub forms: Vec<Value>,
}

/// A `let*` taken apart: its bindings and its body.
pub struct LetForm {
    pub bindings: LetBindings,
    pub body: Vec<Value>,
}

/// The names and the forms of the first `n` pairs of a bindings vector, or
/// the error of the first name that is no unqualified symbol.
pub open spec fn pairs(items: Seq<Datum>, n: nat) -> Result<(Seq<Seq<char>>, Seq<Datum>), Failure>
    decreases n,
{
    if n == 0 || 2 * n > items.len() {
        Ok((Seq::empty(), Seq::empty()))
    } else {
        match pairs(items, (n - 1) as nat) {
            Ok((names, forms)) => match items[2 * n - 2] {
                Datum::Symbol(s, None) => Ok((names.push(s), forms.push(items[2 * n - 1]))),
                Datum::Symbol(s, Some(ns)) => Err(
                    Failure::NamesInLetMustNotBeNamespaced(items[2 * n - 2]),
                ),
                other => Err(Failure::NamesInLetMustBeSymbols(other)),
            },
            Err(e) => Err(e),
        }
    }
}

/// The bindings that a form holds: it must be a vector of names and forms
/// by turns.
pub open spec fn parse_bindings(d: Datum) -> Result<(Seq<Seq<char>>, Seq<Datum>), Failure> {
    match d {
        Datum::Vector(items) => if items.len() % 2 == 0 {
            pairs(items, items.len() / 2)
        } else {
            Err(Failure::BindingsInLetMustBePaired(items))
        },
        other => Err(Failure::LexicalBindingsMustBeVector(other)),
    }
}

/// The names among `names` that a form mentions as unqualified symbols, in
/// the order in which they stand in the form, each as often as it stands.
pub open spec fn mentions(d: Datum, names: Seq<Seq<char>>) -> Seq<Seq<char>>
    decreases d, 0nat,
{
    match d {
        Datum::Symbol(s, None) => if place(names, s, 0) is Some {
            seq![s]
        } else {
            Seq::empty()
        },
        Datum::List(xs) => mentions_run(xs, xs.len(), names),
        Datum::Vector(xs) => mentions_run(xs, xs.len(), names),
        Datum::HashMap(xs) => mentions_run(xs, xs.len(), names),
        Datum::HashSet(xs) => mentions_run(xs, xs.len(), names),
        Datum::Fn(f) => mentions_run(f.body, f.body.len(), names),
        Datum::FnWithCaptures(f, _, _) => mentions_run(f.body, f.body.len(), names),
        _ => Seq::empty(),
    }
}

/// The names that the first `n` forms of a run mention.
pub open spec fn mentions_run(xs: Seq<Datum>, n: nat, names: Seq<Seq<char>>) -> Seq<Seq<char>>
    decreases xs, n,
{
    if n == 0 || n > xs.len() {
        Seq::empty()
    } else {
        mentions_run(xs, (n - 1) as nat, names) + mentions(xs[n - 1], names)
    }
}

/// Appends the names that a run of forms mentions.
pub(crate) fn collect_run(
    out: &mut Vec<String>,
    names: &Vec<String>,
    items: &Vec<Value>,
    Ghost(parent): Ghost<Datum>,
)
    requires
        decreases_to!(parent => data(items@)),
    ensures
        texts(final(out)@) == texts(old(out)@) + mentions_run(
            data(items@),
            items.len() as nat,
            texts(names@),
        ),
    decreases parent, 0nat,
{
    let ghost terms = data(items@);
    let mut i: usize = 0;
    assert(texts(out@) =~= texts(old(out)@) + mentions_run(terms, 0, texts(names@)));
    while i < items.len()
        invariant
            0 <= i <= items.len(),
            terms == data(items@),
            decreases_to!(parent => terms),
            texts(out@) == texts(old(out)@) + mentions_run(terms, i as nat, texts(names@)),
        decreases items.len() - i,
    {
        proof {
            lemma_data_index(items@, i as int);
            assert(decreases_to!(terms => terms[i as int]));
        }
        let ghost before = texts(out@);
        resolve_forward_declarations_in_let_form(out, names, &items[i]);
        assert(texts(out@) =~= texts(old(out)@) + mentions_run(
            terms,
            (i + 1) as nat,
            texts(names@),
        ));
        i = i + 1;
    }
}

/// Appends the names among `names` that a form mentions.
pub fn resolve_forward_declarations_in_let_form(
    forward_declarations: &mut Vec<String>,
    names: &Vec<String>,
    value: &Value,
)
    ensures
        texts(final(forward_declarations)@) == texts(old(forward_declarations)@) + mentions(
            value@,
            texts(names@),
        ),
    decreases value@, 1nat,
{
    match value {
        Value::Symbol(s, None) => {
            if find_name(names, s.as_str()).is_some() {
                let owned = s.clone();
                proof {
                    lemma_texts_push(forward_declarations@, owned);
                }
                forward_declarations.push(owned);
                assert(texts(forward_declarations@) =~= texts(old(forward_declarations)@)
                    + seq![s@]);
            } else {
                assert(texts(forward_declarations@) =~= texts(old(forward_declarations)@)
                    + Seq::<Seq<char>>::empty());
            }
        },
        Value::List(elems) => {
            assert(decreases_to!(value@ => value@->List_0));
            collect_run(forward_declarations, names, &list_to_vec(elems), Ghost(value@));
        },
        Value::Vector(elems) => {
            assert(decreases_to!(value@ => value@->Vector_0));
            collect_run(forward_declarations, names, &vector_to_vec(elems), Ghost(value@));
        },
        Value::HashMap(m) => {
            assert(decreases_to!(value@ => value@->HashMap_0));
            collect_run(forward_declarations, names, &vector_to_vec(&m.entries), Ghost(value@));
        },
        Value::HashSet(s) => {
            assert(decreases_to!(value@ => value@->HashSet_0));
            collect_run(forward_declarations, names, &vector_to_vec(&s.members), Ghost(value@));
        },
        Value::Fn(f) => {
            assert(decreases_to!(value@ => value@->Fn_0));
            assert(decreases_to!(value@->Fn_0 => value@->Fn_0.body));
            collect_run(forward_declarations, names, &list_to_vec(&f.body), Ghost(value@));
        },
        Value::FnWithCaptures(c) => {
            assert(decreases_to!(value@ => value@->FnWithCaptures_0));
            assert(decreases_to!(value@->FnWithCaptures_0 => value@->FnWithCaptures_0.body));
            collect_run(forward_declarations, names, &list_to_vec(&c.f.body), Ghost(value@));
        },
        _ => {
            assert(texts(forward_declarations@) =~= texts(old(forward_declarations)@)
                + Seq::<Seq<char>>::empty());
        },
    }
}

impl LetBindings {
    /// The names of the bindings that the value forms mention, in the order
    /// of the forms.
    pub fn resolve_forward_declarations(&self) -> (r: Vec<String>)
        ensures
            texts(r@) == mentions_run(data(self.forms@), self.forms.len() as nat, texts(self.names@)),
    {
        let mut out: Vec<String> = Vec::new();
        let ghost terms = data(self.forms@);
        let mut i: usize = 0;
        assert(texts(out@) =~= Seq::<Seq<char>>::empty());
        while i < self.forms.len()
            invariant
                0 <= i <= self.forms.len(),
                terms == data(self.forms@),
                texts(out@) == mentions_run(terms, i as nat, texts(self.names@)),
            decreases self.forms.len() - i,
        {
            proof {
                lemma_data_index(self.forms@, i as int);
            }
            resolve_forward_declarations_in_let_form(&mut out, &self.names, &self.forms[i]);
            i = i + 1;
        }
        out
    }
}

/// The bindings that a form holds.
pub fn parse_let_bindings(bindings_form: &Value) -> (r: EvaluationResult<LetBindings>)
    ensures
        match r {
            Ok(b) => parse_bindings(bindings_form@) == Ok::<(Seq<Seq<char>>, Seq<Datum>), Failure>(
                (texts(b.names@), data(b.forms@)),
            ),
            Err(e) => parse_bindings(bindings_form@) == Err::<(Seq<Seq<char>>, Seq<Datum>), Failure>(e@),
        },
{
    match bindings_form {
        Value::Vector(bindings) => {
            let items = vector_to_vec(bindings);
            if items.len() % 2 != 0 {
                return Err(
                    EvaluationError::Syntax(
                        SyntaxError::BindingsInLetMustBePaired(vector_clone(bindings)),
                    ),
                );
            }
            let ghost terms = data(items@);
            let mut names: Vec<String> = Vec::new();
            let mut forms: Vec<Value> = Vec::new();
            let mut i: usize = 0;
            assert(texts(names@) =~= Seq::<Seq<char>>::empty());
            assert(data(forms@) =~= Seq::<Datum>::empty());
            while i + 1 < items.len()
                invariant
                    0 <= i <= items.len(),
                    i % 2 == 0,
                    items.len() % 2 == 0,
                    terms == data(items@),
                    bindings_form@ == Datum::Vector(terms),
                    pairs(terms, (i / 2) as nat) == Ok::<(Seq<Seq<char>>, Seq<Datum>), Failure>(
                        (texts(names@), data(forms@)),
                    ),
                decreases items.len() - i,
            {
                proof {
                    lemma_data_index(items@, i as int);
                    lemma_data_index(items@, i + 1);
                    assert(2 * ((i + 2) / 2) - 2 == i);
                }
                match &items[i] {
                    Value::Symbol(s, None) => {
                        let owned = s.clone();
                        let form = items[i + 1].clone();
                        proof {
                            lemma_texts_push(names@, owned);
                            lemma_data_push(forms@, form);
                        }
                        names.push(owned);
                        forms.push(form);
                    },
                    Value::Symbol(_, Some(_)) => {
                        proof {
                            lemma_pairs_fail(terms, (i + 2) / 2, terms.len() as int / 2);
                        }
                        return Err(
                            EvaluationError::Syntax(
                                SyntaxError::NamesInLetMustNotBeNamespaced(items[i].clone()),
                            ),
                        );
                    },
                    other => {
                        proof {
                            lemma_pairs_fail(terms, (i + 2) / 2, terms.len() as int / 2);
                        }
                        return Err(
                            EvaluationError::Syntax(
                                SyntaxError::NamesInLetMustBeSymbols(other.clone()),
                            ),
                        );
                    },
                }
                i = i + 2;
            }
            Ok(LetBindings { names, forms })
        },
        other => Err(
            EvaluationError::Syntax(SyntaxError::LexicalBindingsMustBeVector(other.clone())),
        ),
    }
}

/// Once a pair fails, all the pairs fail the same way.
pub proof fn lemma_pairs_fail(items: Seq<Datum>, k: int, n: int)
    requires
        0 <= k <= n,
        2 * n <= items.len(),
        pairs(items, k as nat) is Err,
    ensures
        pairs(items, n as nat) == pairs(items, k as nat),
    decreases n - k,
{
    if k < n {
        lemma_pairs_fail(items, k, n - 1);
    }
}

/// What the forms after the head of a `let*` hold: the bindings and the
/// body, or the error of a missing or malformed bindings form.
pub open spec fn parse_let_spec(forms: Seq<Datum>) -> Result<
    ((Seq<Seq<char>>, Seq<Datum>), Seq<Datum>),
    Failure,
> {
    if forms.len() == 0 {
        Err(Failure::MissingForms)
    } else {
        match parse_bindings(forms[0]) {
            Ok(b) => Ok((b, forms.skip(1))),
            Err(e) => Err(e),
        }
    }
}

/// Takes the forms after the head of a `let*` apart.
pub fn parse_let(forms: &Vec<Value>) -> (r: EvaluationResult<LetForm>)
    ensures
        match r {
            Ok(f) => parse_let_spec(data(forms@)) == Ok::<((Seq<Seq<char>>, Seq<Datum>), Seq<Datum>), Failure>(
                ((texts(f.bindings.names@), data(f.bindings.forms@)), data(f.body@)),
            ),
            Err(e) => parse_let_spec(data(forms@)) == Err::<((Seq<Seq<char>>, Seq<Datum>), Seq<Datum>), Failure>(e@),
        },
{
    if forms.len() == 0 {
        return Err(EvaluationError::Syntax(SyntaxError::MissingForms));
    }
    proof {
        lemma_data_index(forms@, 0);
    }
    let bindings = match parse_let_bindings(&forms[0]) {
        Ok(b) => b,
        Err(e) => {
            return Err(e);
        },
    };
    let body = rest_of(forms, 1);
    Ok(LetForm { bindings, body })
}

/// Takes the forms after the head of a `let*` apart.
pub fn analyze_let(let_forms: &Vec<Value>) -> (r: EvaluationResult<LetForm>)
    ensures
        match r {
            Ok(f) => parse_let_spec(data(let_forms@)) == Ok::<((Seq<Seq<char>>, Seq<Datum>), Seq<Datum>), Failure>(
                ((texts(f.bindings.names@), data(f.bindings.forms@)), data(f.body@)),
            ),
            Err(e) => parse_let_spec(data(let_forms@)) == Err::<((Seq<Seq<char>>, Seq<Datum>), Seq<Datum>), Failure>(e@),
        },
{
    parse_let(let_forms)
}

/// Copies of the values from place `from` on.
pub fn rest_of(values: &Vec<Value>, from: usize) -> (r: Vec<Value>)
    requires
        from <= values.len(),
    ensures
        data(r@) == data(values@).skip(from as int),
{
    let mut out: Vec<Value> = Vec::new();
    let mut i: usize = from;
    assert(data(out@) =~= data(values@).subrange(from as int, i as int));
    while i < values.len()
        invariant
            from <= i <= values.len(),
            data(out@) == data(values@).subrange(from as int, i as int),
        decreases values.len() - i,
    {
        let v = values[i].clone();
        proof {
            lemma_data_push(out@, v);
            lemma_data_index(values@, i as int);
        }
        out.push(v);
        i = i + 1;
        assert(data(out@) =~= data(values@).subrange(from as int, i as int));
    }
    assert(data(values@).subrange(from as int, values.len() as int) =~= data(values@).skip(
        from as int,
    ));
    out
}

} // verus!
