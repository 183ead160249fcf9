//! Quasiquotation: from a form with holes to a form whose evaluation
//! builds the quoted value with the holes filled.
use crate::collections::{
    data, lemma_data_index, list_first, list_items, list_new, list_to_vec, vector_to_vec,
    PersistentList, PersistentVector,
};
use crate::errors::{EvaluationError, EvaluationResult, Failure, ListEvaluationError};
use crate::maps::list_with_values;
use crate::text::same_text;
use crate::value::{Datum, Value};
use vstd::prelude::*;

verus! {

/// The unqualified symbol of a name.
pub open spec fn sym(name: Seq<char>) -> Datum {
    Datum::Symbol(name, None)
}

/// The symbol of a name in the core namespace.
pub open spec fn core_sym(name: Seq<char>) -> Datum {
    Datum::Symbol(name, Some("core"@))
}

/// Whether a form is the unqualified symbol of a name.
pub open spec fn is_sym(d: Datum, name: Seq<char>) -> bool {
    d == sym(name)
}

/// The expansion of a form.
pub open spec fn quasiquote(d: Datum) -> Result<Datum, Failure>
    decreases d, 0nat,
{
    match d {
        Datum::List(items) => if items.len() == 0 {
            Ok(Datum::List(Seq::empty()))
        } else if is_sym(items[0], "unquote"@) {
            if items.len() >= 2 {
                Ok(items[1])
            } else {
                Err(Failure::QuasiquoteError("type error to `unquote`"@))
            }
        } else {
            quasiquote_items(items, 0)
        },
        Datum::Vector(items) => match quasiquote_items(items, 0) {
            Ok(inner) => Ok(Datum::List(seq![core_sym("vec"@), inner])),
            Err(e) => Err(e),
        },
        Datum::HashMap(_) => Ok(Datum::List(seq![sym("quote"@), d])),
        Datum::Symbol(_, _) => Ok(Datum::List(seq![sym("quote"@), d])),
        other => Ok(other),
    }
}

/// The expansion of the items from `from` on: the fold, from the last item
/// to the first, that conses the expansion of an item or concatenates what
/// a `splice-unquote` names onto the expansion of the items after it.
pub open spec fn quasiquote_items(items: Seq<Datum>, from: int) -> Result<Datum, Failure>
    decreases items, items.len() - from,
{
    if from < 0 || from >= items.len() {
        Ok(Datum::List(Seq::empty()))
    } else {
        match quasiquote_items(items, from + 1) {
            Ok(rest) => quasiquote_item(items, from, rest),
            Err(e) => Err(e),
        }
    }
}

/// The expansion of item `at` in front of the expansion `rest` of the
/// items after it.
pub open spec fn quasiquote_item(items: Seq<Datum>, at: int, rest: Datum) -> Result<Datum, Failure>
    recommends
        0 <= at < items.len(),
    decreases items, 0nat,
    when 0 <= at < items.len()
{
    match items[at] {
        Datum::List(inner) => if inner.len() == 0 {
            Ok(Datum::List(seq![core_sym("cons"@), Datum::List(Seq::empty()), rest]))
        } else if is_sym(inner[0], "splice-unquote"@) {
            if inner.len() >= 2 {
                Ok(Datum::List(seq![core_sym("concat"@), inner[1], rest]))
            } else {
                Ok(rest)
            }
        } else {
            match quasiquote(items[at]) {
                Ok(x) => Ok(Datum::List(seq![core_sym("cons"@), x, rest])),
                Err(e) => Err(e),
            }
        },
        other => match quasiquote(other) {
            Ok(x) => Ok(Datum::List(seq![core_sym("cons"@), x, rest])),
            Err(e) => Err(e),
        },
    }
}

/// The unqualified symbol of a name.
pub fn symbol(name: &str) -> (r: Value)
    ensures
        r@ == sym(name@),
{
    Value::Symbol(String::from_str(name), None)
}

/// The symbol of a name in the core namespace.
pub fn core_symbol(name: &str) -> (r: Value)
    ensures
        r@ == core_sym(name@),
{
    Value::Symbol(String::from_str(name), Some(String::from_str("core")))
}

/// Whether a value is the unqualified symbol of a name.
pub fn is_symbol_named(v: &Value, name: &str) -> (r: bool)
    ensures
        r == is_sym(v@, name@),
{
    match v {
        Value::Symbol(id, None) => same_text(id.as_str(), name),
        _ => false,
    }
}

/// The list of three values.
pub fn list_of_three(a: Value, b: Value, c: Value) -> (r: Value)
    ensures
        r@ == Datum::List(seq![a@, b@, c@]),
{
    let mut items: Vec<Value> = Vec::new();
    items.push(a);
    items.push(b);
    items.push(c);
    assert(data(items@) =~= seq![a@, b@, c@]);
    list_with_values(items)
}

/// The list of two values.
pub fn list_of_two(a: Value, b: Value) -> (r: Value)
    ensures
        r@ == Datum::List(seq![a@, b@]),
{
    let mut items: Vec<Value> = Vec::new();
    items.push(a);
    items.push(b);
    assert(data(items@) =~= seq![a@, b@]);
    list_with_values(items)
}

/// The empty list.
pub fn empty_list() -> (r: Value)
    ensures
        r@ == Datum::List(Seq::empty()),
{
    Value::List(list_new())
}

/// The expansion of a run of items, folded from the last to the first.
pub(crate) fn eval_quasiquote_list_inner(elems: &Vec<Value>, Ghost(parent): Ghost<Datum>) -> (r:
    EvaluationResult<Value>)
    requires
        decreases_to!(parent => data(elems@)),
    ensures
        match r {
            Ok(v) => quasiquote_items(data(elems@), 0) == Ok::<Datum, Failure>(v@),
            Err(e) => quasiquote_items(data(elems@), 0) == Err::<Datum, Failure>(e@),
        },
    decreases parent, 1nat,
{
    let ghost items = data(elems@);
    let mut result = empty_list();
    let mut i: usize = elems.len();
    while i > 0
        invariant
            0 <= i <= elems.len(),
            items == data(elems@),
            decreases_to!(parent => items),
            quasiquote_items(items, i as int) == Ok::<Datum, Failure>(result@),
        decreases i,
    {
        let form = &elems[i - 1];
        proof {
            lemma_data_index(elems@, i - 1);
            assert(decreases_to!(items => items[i - 1]));
        }
        let ghost rest = result@;
        let spliced: bool = match form {
            Value::List(inner) => {
                match list_first(inner) {
                    Some(first_inner) => is_symbol_named(first_inner, "splice-unquote"),
                    None => false,
                }
            },
            _ => false,
        };
        let emptied: bool = match form {
            Value::List(inner) => crate::collections::list_len(inner) == 0,
            _ => false,
        };
        if emptied {
            result = list_of_three(core_symbol("cons"), empty_list(), result);
        } else if spliced {
            match form {
                Value::List(inner) => {
                    let inner_items = list_to_vec(inner);
                    if inner_items.len() >= 2 {
                        proof {
                            lemma_data_index(inner_items@, 1);
                        }
                        result = list_of_three(
                            core_symbol("concat"),
                            inner_items[1].clone(),
                            result,
                        );
                    }
                },
                _ => {},
            }
        } else {
            match eval_quasiquote(form) {
                Ok(x) => {
                    result = list_of_three(core_symbol("cons"), x, result);
                },
                Err(e) => {
                    proof {
                        lemma_quasiquote_items_fail(items, i - 1);
                    }
                    return Err(e);
                },
            }
        }
        assert(quasiquote_item(items, i - 1, rest) == Ok::<Datum, Failure>(result@));
        i = i - 1;
    }
    Ok(result)
}

/// Once the expansion of the items from some place on fails, so does the
/// expansion of all items.
pub proof fn lemma_quasiquote_items_fail(items: Seq<Datum>, from: int)
    requires
        0 <= from <= items.len(),
        quasiquote_items(items, from) is Err,
    ensures
        quasiquote_items(items, 0) == quasiquote_items(items, from),
    decreases from,
{
    if from > 0 {
        lemma_quasiquote_items_fail(items, from - 1);
    }
}

/// The expansion of a list.
pub(crate) fn eval_quasiquote_list(elems: &PersistentList, Ghost(parent): Ghost<Datum>) -> (r:
    EvaluationResult<Value>)
    requires
        decreases_to!(parent => list_items(*elems)),
    ensures
        match r {
            Ok(v) => quasiquote(Datum::List(list_items(*elems))) == Ok::<Datum, Failure>(v@),
            Err(e) => quasiquote(Datum::List(list_items(*elems))) == Err::<Datum, Failure>(e@),
        },
    decreases parent, 2nat,
{
    let items = list_to_vec(elems);
    if items.len() == 0 {
        return Ok(empty_list());
    }
    proof {
        lemma_data_index(items@, 0);
    }
    if is_symbol_named(&items[0], "unquote") {
        if items.len() >= 2 {
            proof {
                lemma_data_index(items@, 1);
            }
            return Ok(items[1].clone());
        }
        return Err(
            EvaluationError::List(
                ListEvaluationError::QuasiquoteError(
                    String::from_str("type error to `unquote`"),
                ),
            ),
        );
    }
    eval_quasiquote_list_inner(&items, Ghost(parent))
}

/// The expansion of a vector.
pub(crate) fn eval_quasiquote_vector(elems: &PersistentVector, Ghost(parent): Ghost<Datum>) -> (r:
    EvaluationResult<Value>)
    requires
        decreases_to!(parent => crate::collections::vector_items(*elems)),
    ensures
        match r {
            Ok(v) => quasiquote(Datum::Vector(crate::collections::vector_items(*elems))) == Ok::<Datum, Failure>(v@),
            Err(e) => quasiquote(Datum::Vector(crate::collections::vector_items(*elems))) == Err::<Datum, Failure>(e@),
        },
    decreases parent, 2nat,
{
    let items = vector_to_vec(elems);
    match eval_quasiquote_list_inner(&items, Ghost(parent)) {
        Ok(inner) => Ok(list_of_two(core_symbol("vec"), inner)),
        Err(e) => Err(e),
    }
}

/// The expansion of a form: a form whose evaluation gives the form back
/// with each `unquote` replaced by the value of its operand and each
/// `splice-unquote` by the items of the value of its operand.
pub fn eval_quasiquote(value: &Value) -> (r: EvaluationResult<Value>)
    ensures
        match r {
            Ok(v) => quasiquote(value@) == Ok::<Datum, Failure>(v@),
            Err(e) => quasiquote(value@) == Err::<Datum, Failure>(e@),
        },
    decreases value@, 3nat,
{
    match value {
        Value::List(elems) => {
            assert(decreases_to!(value@ => value@->List_0));
            eval_quasiquote_list(elems, Ghost(value@))
        },
        Value::Vector(elems) => {
            assert(decreases_to!(value@ => value@->Vector_0));
            eval_quasiquote_vector(elems, Ghost(value@))
        },
        Value::HashMap(_) => Ok(list_of_two(symbol("quote"), value.clone())),
        Value::Symbol(_, _) => Ok(list_of_two(symbol("quote"), value.clone())),
        v => Ok(v.clone()),
    }
}

} // verus!
