//! The primitives: the procedures that the interpreter implements itself.
//!
//! Each takes the interpreter and its operands, already evaluated. Most
//! read nothing but the operands and leave the interpreter as it is.
use crate::collections::{
    data, lemma_data_add, lemma_data_index, lemma_data_push, list_push_front, list_to_vec,
    vector_to_vec,
};
use crate::equality::equal as values_equal;
use crate::errors::{list_failure, primitive_failure, EvaluationError, EvaluationResult, Failure};
use crate::maps::{
    adjoin_all, adjoin_member, assoc_all, assoc_entry, dissoc_all, dissoc_entry, exception,
    exception_into_thrown, keys_of, list_with_values, lookup_entry, vals_of, vector_with_values,
};
use crate::prelude_spec::{
    assoc_spec, column_spec, compare_spec, concat_spec, conj_entries, conj_spec, cons_spec,
    contents_of, count_spec, dissoc_spec, divide_spec, does_contain_spec, end_spec, equal_spec,
    ex_info_spec, fold, get_spec, incorrect_argument, is_empty_spec, is_kind, items_of, joined,
    letters, list_spec, multiply_spec, nth_spec, number, pairs_of, plus_spec, predicate_spec,
    read_string_spec, rest_spec, reversed, size_of, spaced, spaced_spec, step, str_text,
    subtract_spec, throw_spec, to_keyword_spec, to_map_spec, to_seq_spec, to_set_spec,
    to_str_spec, to_symbol_spec, to_vector_spec, vec_spec, wrong_arity, Arithmetic, Comparison,
    End, Kind,
};
use crate::printer::{print, write_value};
use crate::semantics::{
    applicable, call_primitive, deref_spec, map_items, readline_spec, slurp_spec, spit_spec,
};
use crate::value::Primitive;
use crate::state::{Interpreter, Want};
use crate::text::{chars_of, push_str, string_of};
use crate::value::{Datum, PersistentMap, PersistentSet, Value};
use vstd::prelude::*;

verus! {

/// Whether a result stands for what a contract says of it.
pub open spec fn agrees(r: EvaluationResult<Value>, s: Result<Datum, Failure>) -> bool {
    match r {
        Ok(v) => s == Ok::<Datum, Failure>(v@),
        Err(e) => s == Err::<Datum, Failure>(e@),
    }
}

/// The error of a primitive that got the wrong number of arguments.
pub fn wrong_arity_error() -> (e: EvaluationError)
    ensures
        e@ == wrong_arity(),
{
    list_failure("wrong arity")
}

/// The error of a primitive that got an argument of the wrong kind.
pub fn incorrect_argument_error() -> (e: EvaluationError)
    ensures
        e@ == incorrect_argument(),
{
    list_failure("incorrect argument")
}

/// Copies of the operands from place `from` on.
pub fn operands_from(args: &[Value], from: usize) -> (r: Vec<Value>)
    requires
        from <= args.len(),
    ensures
        data(r@) == data(args@).skip(from as int),
{
    let mut out: Vec<Value> = Vec::new();
    let mut i: usize = from;
    assert(data(out@) =~= data(args@).subrange(from as int, i as int));
    while i < args.len()
        invariant
            from <= i <= args.len(),
            data(out@) == data(args@).subrange(from as int, i as int),
        decreases args.len() - i,
    {
        let v = args[i].clone();
        proof {
            lemma_data_push(out@, v);
            lemma_data_index(args@, i as int);
        }
        out.push(v);
        i = i + 1;
        assert(data(out@) =~= data(args@).subrange(from as int, i as int));
    }
    assert(data(args@).subrange(from as int, args.len() as int) =~= data(args@).skip(from as int));
    out
}

/// Copies of the operands.
pub fn operands(args: &[Value]) -> (r: Vec<Value>)
    ensures
        data(r@) == data(args@),
{
    let r = operands_from(args, 0);
    assert(data(args@).skip(0) =~= data(args@));
    r
}

/// One step of arithmetic.
fn step_of(op: Arithmetic, acc: i64, x: i64) -> (r: Option<i64>)
    ensures
        r == step(op, acc, x),
{
    match op {
        Arithmetic::Add => acc.checked_add(x),
        Arithmetic::Sub => acc.checked_sub(x),
        Arithmetic::Mul => acc.checked_mul(x),
        Arithmetic::Div => acc.checked_div_euclid(x),
    }
}

/// Folds the operands from place `from` on into `start`.
fn fold_numbers(op: Arithmetic, args: &[Value], from: usize, start: i64) -> (r: EvaluationResult<
    Value,
>)
    requires
        from <= args.len(),
    ensures
        agrees(r, number(fold(op, data(args@), from as int, args.len() as int, start))),
{
    let mut acc: i64 = start;
    let mut i: usize = from;
    let ghost terms = data(args@);
    while i < args.len()
        invariant
            from <= i <= args.len(),
            terms == data(args@),
            fold(op, terms, from as int, i as int, start) == Ok::<i64, Failure>(acc),
        decreases args.len() - i,
    {
        proof {
            lemma_data_index(args@, i as int);
        }
        match &args[i] {
            Value::Number(x) => {
                match step_of(op, acc, *x) {
                    Some(next) => {
                        acc = next;
                    },
                    None => {
                        proof {
                            lemma_fold_fails(op, terms, from as int, i + 1, terms.len() as int, start);
                        }
                        return Err(
                            primitive_failure(
                                match op {
                                    Arithmetic::Sub => "underflow detected",
                                    _ => "overflow detected",
                                },
                            ),
                        );
                    },
                }
            },
            _ => {
                proof {
                    lemma_fold_fails(op, terms, from as int, i + 1, terms.len() as int, start);
                }
                return Err(
                    primitive_failure(
                        match op {
                            Arithmetic::Add => "plus only takes number arguments",
                            Arithmetic::Sub => "subtract only takes number arguments",
                            Arithmetic::Mul => "multiply only takes number arguments",
                            Arithmetic::Div => "divide only takes number arguments",
                        },
                    ),
                );
            },
        }
        i = i + 1;
    }
    Ok(Value::Number(acc))
}

/// Once a fold fails, it fails the same way however far it goes.
pub proof fn lemma_fold_fails(
    op: Arithmetic,
    args: Seq<Datum>,
    from: int,
    k: int,
    n: int,
    start: i64,
)
    requires
        from <= k <= n <= args.len(),
        fold(op, args, from, k, start) is Err,
    ensures
        fold(op, args, from, n, start) == fold(op, args, from, k, start),
    decreases n - k,
{
    if k < n {
        lemma_fold_fails(op, args, from, k, n - 1, start);
    }
}

/// `+`
pub fn plus(interpreter: &mut Interpreter, args: &[Value]) -> (r: EvaluationResult<Value>)
    ensures
        *final(interpreter) == *old(interpreter),
        agrees(r, plus_spec(data(args@))),
{
    fold_numbers(Arithmetic::Add, args, 0, 0)
}

/// `*`
pub fn multiply(interpreter: &mut Interpreter, args: &[Value]) -> (r: EvaluationResult<Value>)
    ensures
        *final(interpreter) == *old(interpreter),
        agrees(r, multiply_spec(data(args@))),
{
    fold_numbers(Arithmetic::Mul, args, 0, 1)
}

/// `-`
pub fn subtract(interpreter: &mut Interpreter, args: &[Value]) -> (r: EvaluationResult<Value>)
    ensures
        *final(interpreter) == *old(interpreter),
        agrees(r, subtract_spec(data(args@))),
{
    if args.len() == 0 {
        return Err(primitive_failure("subtract needs more than 0 args"));
    }
    proof {
        lemma_data_index(args@, 0);
    }
    if args.len() == 1 {
        return match &args[0] {
            Value::Number(first) => match 0i64.checked_sub(*first) {
                Some(n) => Ok(Value::Number(n)),
                None => Err(primitive_failure("negation failed")),
            },
            _ => Err(primitive_failure("negation requires an integer argument")),
        };
    }
    match &args[0] {
        Value::Number(first) => fold_numbers(Arithmetic::Sub, args, 1, *first),
        _ => Err(primitive_failure("subtract only takes number arguments")),
    }
}

/// `/`
pub fn divide(interpreter: &mut Interpreter, args: &[Value]) -> (r: EvaluationResult<Value>)
    ensures
        *final(interpreter) == *old(interpreter),
        agrees(r, divide_spec(data(args@))),
{
    if args.len() == 0 {
        return Err(primitive_failure("divide needs more than 0 args"));
    }
    proof {
        lemma_data_index(args@, 0);
    }
    if args.len() == 1 {
        return match &args[0] {
            Value::Number(first) => match 1i64.checked_div_euclid(*first) {
                Some(n) => Ok(Value::Number(n)),
                None => Err(primitive_failure("overflow detected")),
            },
            _ => Err(primitive_failure("divide requires number arguments")),
        };
    }
    match &args[0] {
        Value::Number(first) => fold_numbers(Arithmetic::Div, args, 1, *first),
        _ => Err(primitive_failure("divide only takes number arguments")),
    }
}

/// A comparison of exactly two numbers.
fn compare(c: Comparison, args: &[Value]) -> (r: EvaluationResult<Value>)
    ensures
        agrees(r, compare_spec(c, data(args@))),
{
    if args.len() != 2 {
        return Err(wrong_arity_error());
    }
    proof {
        lemma_data_index(args@, 0);
        lemma_data_index(args@, 1);
    }
    match &args[0] {
        Value::Number(a) => match &args[1] {
            Value::Number(b) => Ok(
                Value::Bool(
                    match c {
                        Comparison::Less => *a < *b,
                        Comparison::LessEq => *a <= *b,
                        Comparison::Greater => *a > *b,
                        Comparison::GreaterEq => *a >= *b,
                    },
                ),
            ),
            _ => Err(incorrect_argument_error()),
        },
        _ => Err(incorrect_argument_error()),
    }
}

/// `<`
pub fn less(interpreter: &mut Interpreter, args: &[Value]) -> (r: EvaluationResult<Value>)
    ensures
        *final(interpreter) == *old(interpreter),
        agrees(r, compare_spec(Comparison::Less, data(args@))),
{
    compare(Comparison::Less, args)
}

/// `<=`
pub fn less_eq(interpreter: &mut Interpreter, args: &[Value]) -> (r: EvaluationResult<Value>)
    ensures
        *final(interpreter) == *old(interpreter),
        agrees(r, compare_spec(Comparison::LessEq, data(args@))),
{
    compare(Comparison::LessEq, args)
}

/// `>`
pub fn greater(interpreter: &mut Interpreter, args: &[Value]) -> (r: EvaluationResult<Value>)
    ensures
        *final(interpreter) == *old(interpreter),
        agrees(r, compare_spec(Comparison::Greater, data(args@))),
{
    compare(Comparison::Greater, args)
}

/// `>=`
pub fn greater_eq(interpreter: &mut Interpreter, args: &[Value]) -> (r: EvaluationResult<Value>)
    ensures
        *final(interpreter) == *old(interpreter),
        agrees(r, compare_spec(Comparison::GreaterEq, data(args@))),
{
    compare(Comparison::GreaterEq, args)
}

/// `=`
pub fn equal(interpreter: &mut Interpreter, args: &[Value]) -> (r: EvaluationResult<Value>)
    ensures
        *final(interpreter) == *old(interpreter),
        agrees(r, equal_spec(data(args@))),
{
    if args.len() != 2 {
        return Err(wrong_arity_error());
    }
    proof {
        lemma_data_index(args@, 0);
        lemma_data_index(args@, 1);
    }
    Ok(Value::Bool(values_equal(&args[0], &args[1])))
}

/// Whether a value is of a kind.
fn has_kind(k: Kind, v: &Value) -> (r: bool)
    ensures
        r == is_kind(k, v@),
{
    match k {
        Kind::List => matches!(v, Value::List(_)),
        Kind::Atom => matches!(v, Value::Atom(_)),
        Kind::Nil => matches!(v, Value::Nil),
        Kind::True => matches!(v, Value::Bool(true)),
        Kind::False => matches!(v, Value::Bool(false)),
        Kind::Symbol => matches!(v, Value::Symbol(_, _)),
        Kind::Keyword => matches!(v, Value::Keyword(_, _)),
        Kind::Vector => matches!(v, Value::Vector(_)),
        Kind::Sequential => matches!(v, Value::List(_)) || matches!(v, Value::Vector(_)),
        Kind::HashMap => matches!(v, Value::HashMap(_)),
        Kind::HashSet => matches!(v, Value::HashSet(_)),
        Kind::String => matches!(v, Value::String(_)),
        Kind::Number => matches!(v, Value::Number(_)),
        Kind::Fn => matches!(v, Value::Fn(_)) || matches!(v, Value::FnWithCaptures(_)) || matches!(
            v,
            Value::Primitive(_)
        ) || matches!(v, Value::Macro(_)),
        Kind::Macro => matches!(v, Value::Macro(_)),
    }
}

/// A predicate on exactly one operand.
fn predicate(k: Kind, args: &[Value]) -> (r: EvaluationResult<Value>)
    ensures
        agrees(r, predicate_spec(k, data(args@))),
{
    if args.len() != 1 {
        return Err(wrong_arity_error());
    }
    proof {
        lemma_data_index(args@, 0);
    }
    Ok(Value::Bool(has_kind(k, &args[0])))
}

/// `list?`
pub fn is_list(interpreter: &mut Interpreter, args: &[Value]) -> (r: EvaluationResult<Value>)
    ensures
        *final(interpreter) == *old(interpreter),
        agrees(r, predicate_spec(Kind::List, data(args@))),
{
    predicate(Kind::List, args)
}

/// `atom?`
pub fn is_atom(interpreter: &mut Interpreter, args: &[Value]) -> (r: EvaluationResult<Value>)
    ensures
        *final(interpreter) == *old(interpreter),
        agrees(r, predicate_spec(Kind::Atom, data(args@))),
{
    predicate(Kind::Atom, args)
}

/// `nil?`
pub fn is_nil(interpreter: &mut Interpreter, args: &[Value]) -> (r: EvaluationResult<Value>)
    ensures
        *final(interpreter) == *old(interpreter),
        agrees(r, predicate_spec(Kind::Nil, data(args@))),
{
    predicate(Kind::Nil, args)
}

/// `true?`
pub fn is_true(interpreter: &mut Interpreter, args: &[Value]) -> (r: EvaluationResult<Value>)
    ensures
        *final(interpreter) == *old(interpreter),
        agrees(r, predicate_spec(Kind::True, data(args@))),
{
    predicate(Kind::True, args)
}

/// `false?`
pub fn is_false(interpreter: &mut Interpreter, args: &[Value]) -> (r: EvaluationResult<Value>)
    ensures
        *final(interpreter) == *old(interpreter),
        agrees(r, predicate_spec(Kind::False, data(args@))),
{
    predicate(Kind::False, args)
}

/// `symbol?`
pub fn is_symbol(interpreter: &mut Interpreter, args: &[Value]) -> (r: EvaluationResult<Value>)
    ensures
        *final(interpreter) == *old(interpreter),
        agrees(r, predicate_spec(Kind::Symbol, data(args@))),
{
    predicate(Kind::Symbol, args)
}

/// `keyword?`
pub fn is_keyword(interpreter: &mut Interpreter, args: &[Value]) -> (r: EvaluationResult<Value>)
    ensures
        *final(interpreter) == *old(interpreter),
        agrees(r, predicate_spec(Kind::Keyword, data(args@))),
{
    predicate(Kind::Keyword, args)
}

/// `vector?`
pub fn is_vector(interpreter: &mut Interpreter, args: &[Value]) -> (r: EvaluationResult<Value>)
    ensures
        *final(interpreter) == *old(interpreter),
        agrees(r, predicate_spec(Kind::Vector, data(args@))),
{
    predicate(Kind::Vector, args)
}

/// `sequential?`
pub fn is_sequential(interpreter: &mut Interpreter, args: &[Value]) -> (r: EvaluationResult<Value>)
    ensures
        *final(interpreter) == *old(interpreter),
        agrees(r, predicate_spec(Kind::Sequential, data(args@))),
{
    predicate(Kind::Sequential, args)
}

/// `map?`
pub fn is_map(interpreter: &mut Interpreter, args: &[Value]) -> (r: EvaluationResult<Value>)
    ensures
        *final(interpreter) == *old(interpreter),
        agrees(r, predicate_spec(Kind::HashMap, data(args@))),
{
    predicate(Kind::HashMap, args)
}

/// `set?`
pub fn is_set(interpreter: &mut Interpreter, args: &[Value]) -> (r: EvaluationResult<Value>)
    ensures
        *final(interpreter) == *old(interpreter),
        agrees(r, predicate_spec(Kind::HashSet, data(args@))),
{
    predicate(Kind::HashSet, args)
}

/// `string?`
pub fn is_string(interpreter: &mut Interpreter, args: &[Value]) -> (r: EvaluationResult<Value>)
    ensures
        *final(interpreter) == *old(interpreter),
        agrees(r, predicate_spec(Kind::String, data(args@))),
{
    predicate(Kind::String, args)
}

/// `number?`
pub fn is_number(interpreter: &mut Interpreter, args: &[Value]) -> (r: EvaluationResult<Value>)
    ensures
        *final(interpreter) == *old(interpreter),
        agrees(r, predicate_spec(Kind::Number, data(args@))),
{
    predicate(Kind::Number, args)
}

/// `fn?`
pub fn is_fn(interpreter: &mut Interpreter, args: &[Value]) -> (r: EvaluationResult<Value>)
    ensures
        *final(interpreter) == *old(interpreter),
        agrees(r, predicate_spec(Kind::Fn, data(args@))),
{
    predicate(Kind::Fn, args)
}

/// `macro?`
pub fn is_macro(interpreter: &mut Interpreter, args: &[Value]) -> (r: EvaluationResult<Value>)
    ensures
        *final(interpreter) == *old(interpreter),
        agrees(r, predicate_spec(Kind::Macro, data(args@))),
{
    predicate(Kind::Macro, args)
}

/// `list`
pub fn list(interpreter: &mut Interpreter, args: &[Value]) -> (r: EvaluationResult<Value>)
    ensures
        *final(interpreter) == *old(interpreter),
        agrees(r, list_spec(data(args@))),
{
    Ok(list_with_values(operands(args)))
}

/// `vector`
pub fn to_vector(interpreter: &mut Interpreter, args: &[Value]) -> (r: EvaluationResult<Value>)
    ensures
        *final(interpreter) == *old(interpreter),
        agrees(r, to_vector_spec(data(args@))),
{
    Ok(vector_with_values(operands(args)))
}

/// The items of a list or a vector.
pub fn items_in(v: &Value) -> (r: Option<Vec<Value>>)
    ensures
        match r {
            Some(items) => items_of(v@) == Some(data(items@)),
            None => items_of(v@) is None,
        },
{
    match v {
        Value::List(l) => Some(list_to_vec(l)),
        Value::Vector(l) => Some(vector_to_vec(l)),
        _ => None,
    }
}

/// How many items a collection holds, or how many bytes a string takes.
pub fn size_in(v: &Value) -> (r: Option<usize>)
    ensures
        match r {
            Some(n) => size_of(v@) == Some(n as nat),
            None => size_of(v@) is None,
        },
{
    match v {
        Value::Nil => Some(0),
        Value::String(s) => Some(s.as_str().len()),
        Value::List(l) => Some(crate::collections::list_len(l)),
        Value::Vector(l) => Some(crate::collections::vector_len(l)),
        Value::HashMap(m) => Some(crate::collections::vector_len(&m.entries) / 2),
        Value::HashSet(s) => Some(crate::collections::vector_len(&s.members)),
        _ => None,
    }
}

/// `empty?`
pub fn is_empty(interpreter: &mut Interpreter, args: &[Value]) -> (r: EvaluationResult<Value>)
    ensures
        *final(interpreter) == *old(interpreter),
        agrees(r, is_empty_spec(data(args@))),
{
    if args.len() != 1 {
        return Err(wrong_arity_error());
    }
    proof {
        lemma_data_index(args@, 0);
    }
    match &args[0] {
        Value::String(s) => Ok(Value::Bool(s.as_str().is_empty())),
        other => match size_in(other) {
            Some(n) => Ok(Value::Bool(n == 0)),
            None => Err(incorrect_argument_error()),
        },
    }
}

/// `count`
pub fn count(interpreter: &mut Interpreter, args: &[Value]) -> (r: EvaluationResult<Value>)
    ensures
        *final(interpreter) == *old(interpreter),
        agrees(r, count_spec(data(args@))),
{
    if args.len() != 1 {
        return Err(wrong_arity_error());
    }
    proof {
        lemma_data_index(args@, 0);
    }
    match size_in(&args[0]) {
        Some(n) => {
            if (n as u64) <= 0x7fff_ffff_ffff_ffff {
                Ok(Value::Number(n as i64))
            } else {
                Ok(Value::Number(i64::MAX))
            }
        },
        None => Err(incorrect_argument_error()),
    }
}

/// `cons`
pub fn cons(interpreter: &mut Interpreter, args: &[Value]) -> (r: EvaluationResult<Value>)
    ensures
        *final(interpreter) == *old(interpreter),
        agrees(r, cons_spec(data(args@))),
{
    if args.len() != 2 {
        return Err(wrong_arity_error());
    }
    proof {
        lemma_data_index(args@, 0);
        lemma_data_index(args@, 1);
    }
    match &args[1] {
        Value::List(seq) => Ok(Value::List(list_push_front(seq, args[0].clone()))),
        Value::Vector(seq) => {
            let tail = crate::collections::list_from_vec(vector_to_vec(seq));
            Ok(Value::List(list_push_front(&tail, args[0].clone())))
        },
        _ => Err(incorrect_argument_error()),
    }
}

/// `concat`
pub fn concat(interpreter: &mut Interpreter, args: &[Value]) -> (r: EvaluationResult<Value>)
    ensures
        *final(interpreter) == *old(interpreter),
        agrees(r, concat_spec(data(args@))),
{
    let mut elems: Vec<Value> = Vec::new();
    let ghost terms = data(args@);
    let mut i: usize = 0;
    assert(data(elems@) =~= Seq::<Datum>::empty());
    while i < args.len()
        invariant
            0 <= i <= args.len(),
            terms == data(args@),
            joined(terms, i as nat) == Ok::<Seq<Datum>, Failure>(data(elems@)),
        decreases args.len() - i,
    {
        proof {
            lemma_data_index(args@, i as int);
        }
        match items_in(&args[i]) {
            Some(mut items) => {
                proof {
                    lemma_data_add(elems@, items@);
                }
                elems.append(&mut items);
            },
            None => {
                proof {
                    lemma_joined_fails(terms, i + 1, terms.len() as int);
                }
                return Err(incorrect_argument_error());
            },
        }
        i = i + 1;
    }
    Ok(list_with_values(elems))
}

/// Once a concatenation fails, it fails the same way however far it goes.
pub proof fn lemma_joined_fails(args: Seq<Datum>, k: int, n: int)
    requires
        0 <= k <= n <= args.len(),
        joined(args, k as nat) is Err,
    ensures
        joined(args, n as nat) == joined(args, k as nat),
    decreases n - k,
{
    if k < n {
        lemma_joined_fails(args, k, n - 1);
    }
}

/// `vec`
pub fn vec(interpreter: &mut Interpreter, args: &[Value]) -> (r: EvaluationResult<Value>)
    ensures
        *final(interpreter) == *old(interpreter),
        agrees(r, vec_spec(data(args@))),
{
    if args.len() != 1 {
        return Err(wrong_arity_error());
    }
    proof {
        lemma_data_index(args@, 0);
    }
    match &args[0] {
        Value::Nil => {
            let none: Vec<Value> = Vec::new();
            assert(data(none@) =~= Seq::<Datum>::empty());
            Ok(vector_with_values(none))
        },
        other => match items_in(other) {
            Some(items) => Ok(vector_with_values(items)),
            None => Err(incorrect_argument_error()),
        },
    }
}

/// `nth`
pub fn nth(interpreter: &mut Interpreter, args: &[Value]) -> (r: EvaluationResult<Value>)
    ensures
        *final(interpreter) == *old(interpreter),
        agrees(r, nth_spec(data(args@))),
{
    if args.len() != 2 {
        return Err(wrong_arity_error());
    }
    proof {
        lemma_data_index(args@, 0);
        lemma_data_index(args@, 1);
    }
    match &args[1] {
        Value::Number(index) => {
            if *index < 0 {
                return Err(incorrect_argument_error());
            }
            match &args[0] {
                Value::List(seq) => {
                    let items = list_to_vec(seq);
                    if (*index as u64) < items.len() as u64 {
                        proof {
                            lemma_data_index(items@, *index as int);
                        }
                        Ok(items[*index as usize].clone())
                    } else {
                        Err(list_failure("collection does not have an element at this index"))
                    }
                },
                Value::Vector(seq) => {
                    let found = if (*index as u64) < crate::collections::vector_len(seq) as u64 {
                        crate::collections::vector_get(seq, *index as usize)
                    } else {
                        None
                    };
                    match found {
                        Some(v) => Ok(v.clone()),
                        None => Err(
                            list_failure("collection does not have an element at this index"),
                        ),
                    }
                },
                _ => Err(incorrect_argument_error()),
            }
        },
        _ => Err(incorrect_argument_error()),
    }
}

/// The item at an end of a collection.
fn end_of(end: End, args: &[Value]) -> (r: EvaluationResult<Value>)
    ensures
        agrees(r, end_spec(end, data(args@))),
{
    if args.len() != 1 {
        return Err(wrong_arity_error());
    }
    proof {
        lemma_data_index(args@, 0);
    }
    match &args[0] {
        Value::Nil => Ok(Value::Nil),
        other => match items_in(other) {
            Some(items) => {
                if items.len() == 0 {
                    Ok(Value::Nil)
                } else {
                    proof {
                        lemma_data_index(items@, 0);
                        lemma_data_index(items@, items.len() - 1);
                    }
                    match end {
                        End::First => Ok(items[0].clone()),
                        End::Last => Ok(items[items.len() - 1].clone()),
                    }
                }
            },
            None => Err(incorrect_argument_error()),
        },
    }
}

/// `first`
pub fn first(interpreter: &mut Interpreter, args: &[Value]) -> (r: EvaluationResult<Value>)
    ensures
        *final(interpreter) == *old(interpreter),
        agrees(r, end_spec(End::First, data(args@))),
{
    end_of(End::First, args)
}

/// `last`
pub fn last(interpreter: &mut Interpreter, args: &[Value]) -> (r: EvaluationResult<Value>)
    ensures
        *final(interpreter) == *old(interpreter),
        agrees(r, end_spec(End::Last, data(args@))),
{
    end_of(End::Last, args)
}

/// `rest`
pub fn rest(interpreter: &mut Interpreter, args: &[Value]) -> (r: EvaluationResult<Value>)
    ensures
        *final(interpreter) == *old(interpreter),
        agrees(r, rest_spec(data(args@))),
{
    if args.len() != 1 {
        return Err(wrong_arity_error());
    }
    proof {
        lemma_data_index(args@, 0);
    }
    match &args[0] {
        Value::Nil => Ok(crate::quasiquote::empty_list()),
        Value::List(elems) => match crate::collections::list_drop_first(elems) {
            Some(rest) => Ok(Value::List(rest)),
            None => Ok(crate::quasiquote::empty_list()),
        },
        Value::Vector(elems) => {
            let items = vector_to_vec(elems);
            if items.len() == 0 {
                Ok(crate::quasiquote::empty_list())
            } else {
                Ok(list_with_values(operands_from(items.as_slice(), 1)))
            }
        },
        _ => Err(incorrect_argument_error()),
    }
}

/// `ex-info`
pub fn ex_info(interpreter: &mut Interpreter, args: &[Value]) -> (r: EvaluationResult<Value>)
    ensures
        *final(interpreter) == *old(interpreter),
        agrees(r, ex_info_spec(data(args@))),
{
    if args.len() != 2 {
        return Err(wrong_arity_error());
    }
    proof {
        lemma_data_index(args@, 0);
        lemma_data_index(args@, 1);
    }
    match &args[0] {
        Value::String(msg) => Ok(exception(msg.as_str(), &args[1])),
        _ => Err(incorrect_argument_error()),
    }
}

/// `throw`
pub fn throw(interpreter: &mut Interpreter, args: &[Value]) -> (r: EvaluationResult<Value>)
    ensures
        *final(interpreter) == *old(interpreter),
        agrees(r, throw_spec(data(args@))),
{
    if args.len() != 1 {
        return Err(wrong_arity_error());
    }
    proof {
        lemma_data_index(args@, 0);
    }
    match &args[0] {
        Value::Exception(_) => Ok(exception_into_thrown(&args[0])),
        Value::Nil | Value::Bool(_) | Value::Number(_) | Value::String(_) | Value::Keyword(
            _,
            _,
        ) | Value::Symbol(_, _) | Value::List(_) | Value::Vector(_) | Value::HashMap(_)
        | Value::HashSet(_) => {
            proof {
                reveal_strlit("");
            }
            let plain = exception("", &args[0]);
            assert(""@ =~= Seq::<char>::empty());
            Ok(exception_into_thrown(&plain))
        },
        _ => Err(incorrect_argument_error()),
    }
}

/// `symbol`
pub fn to_symbol(interpreter: &mut Interpreter, args: &[Value]) -> (r: EvaluationResult<Value>)
    ensures
        *final(interpreter) == *old(interpreter),
        agrees(r, to_symbol_spec(data(args@))),
{
    if args.len() != 1 {
        return Err(wrong_arity_error());
    }
    proof {
        lemma_data_index(args@, 0);
    }
    match &args[0] {
        Value::String(name) => Ok(Value::Symbol(name.clone(), None)),
        _ => Err(incorrect_argument_error()),
    }
}

/// `keyword`
pub fn to_keyword(interpreter: &mut Interpreter, args: &[Value]) -> (r: EvaluationResult<Value>)
    ensures
        *final(interpreter) == *old(interpreter),
        agrees(r, to_keyword_spec(data(args@))),
{
    if args.len() != 1 {
        return Err(wrong_arity_error());
    }
    proof {
        lemma_data_index(args@, 0);
    }
    match &args[0] {
        Value::String(name) => Ok(Value::Keyword(name.clone(), None)),
        Value::Keyword(_, _) => Ok(args[0].clone()),
        _ => Err(incorrect_argument_error()),
    }
}

/// `hash-map`
pub fn to_map(interpreter: &mut Interpreter, args: &[Value]) -> (r: EvaluationResult<Value>)
    ensures
        *final(interpreter) == *old(interpreter),
        agrees(r, to_map_spec(data(args@))),
{
    if args.len() % 2 != 0 {
        return Err(list_failure("map needs an even number of arguments"));
    }
    Ok(crate::maps::map_with_entries(operands(args)))
}

/// The one-character strings of a string.
pub fn letters_of(s: &str) -> (r: Vec<Value>)
    ensures
        data(r@) == letters(s@),
{
    let chars = chars_of(s);
    let mut out: Vec<Value> = Vec::new();
    let mut i: usize = 0;
    while i < chars.len()
        invariant
            0 <= i <= chars.len(),
            chars@ == s@,
            data(out@).len() == i,
            forall|k: int| 0 <= k < i ==> data(out@)[k] == Datum::String(seq![s@[k]]),
        decreases chars.len() - i,
    {
        let mut one: Vec<char> = Vec::new();
        one.push(chars[i]);
        assert(one@ =~= seq![s@[i as int]]);
        let v = Value::String(string_of(&one));
        proof {
            lemma_data_push(out@, v);
        }
        out.push(v);
        i = i + 1;
    }
    assert(data(out@) =~= letters(s@));
    out
}

/// The entries of a map, each as a vector of key and value.
pub fn pairs_in(entries: &Vec<Value>) -> (r: Vec<Value>)
    ensures
        data(r@) == pairs_of(data(entries@)),
{
    let mut out: Vec<Value> = Vec::new();
    let ghost terms = data(entries@);
    let mut i: usize = 0;
    while i + 1 < entries.len()
        invariant
            0 <= i <= entries.len(),
            i % 2 == 0,
            terms == data(entries@),
            data(out@).len() == i / 2,
            forall|k: int|
                0 <= k < i / 2 ==> #[trigger] data(out@)[k] == Datum::Vector(
                    seq![terms[2 * k], terms[2 * k + 1]],
                ),
        decreases entries.len() - i,
    {
        let mut pair: Vec<Value> = Vec::new();
        pair.push(entries[i].clone());
        pair.push(entries[i + 1].clone());
        proof {
            lemma_data_index(entries@, i as int);
            lemma_data_index(entries@, i + 1);
            assert(data(pair@) =~= seq![terms[i as int], terms[i + 1]]);
        }
        let v = vector_with_values(pair);
        proof {
            lemma_data_push(out@, v);
        }
        out.push(v);
        i = i + 2;
    }
    assert(terms.len() == entries.len());
    assert(data(out@) =~= pairs_of(terms));
    out
}

/// What a collection holds, as a run.
pub fn contents_in(v: &Value) -> (r: Option<Vec<Value>>)
    ensures
        match r {
            Some(items) => contents_of(v@) == Some(data(items@)),
            None => contents_of(v@) is None,
        },
{
    match v {
        Value::Nil => {
            let none: Vec<Value> = Vec::new();
            assert(data(none@) =~= Seq::<Datum>::empty());
            Some(none)
        },
        Value::String(s) => Some(letters_of(s.as_str())),
        Value::List(l) => Some(list_to_vec(l)),
        Value::Vector(l) => Some(vector_to_vec(l)),
        Value::HashMap(m) => Some(pairs_in(&vector_to_vec(&m.entries))),
        Value::HashSet(s) => Some(vector_to_vec(&s.members)),
        _ => None,
    }
}

/// `set`
pub fn to_set(interpreter: &mut Interpreter, args: &[Value]) -> (r: EvaluationResult<Value>)
    ensures
        *final(interpreter) == *old(interpreter),
        agrees(r, to_set_spec(data(args@))),
{
    if args.len() != 1 {
        return Err(wrong_arity_error());
    }
    proof {
        lemma_data_index(args@, 0);
    }
    match &args[0] {
        Value::HashSet(_) => Ok(args[0].clone()),
        other => match contents_in(other) {
            Some(items) => Ok(crate::maps::set_with_values(items)),
            None => Err(incorrect_argument_error()),
        },
    }
}

/// `seq`
pub fn to_seq(interpreter: &mut Interpreter, args: &[Value]) -> (r: EvaluationResult<Value>)
    ensures
        *final(interpreter) == *old(interpreter),
        agrees(r, to_seq_spec(data(args@))),
{
    if args.len() != 1 {
        return Err(wrong_arity_error());
    }
    proof {
        lemma_data_index(args@, 0);
    }
    match contents_in(&args[0]) {
        Some(items) => {
            if items.len() == 0 {
                Ok(Value::Nil)
            } else {
                Ok(list_with_values(items))
            }
        },
        None => Err(incorrect_argument_error()),
    }
}

/// Binds, in order, the pairs that a run of values makes.
pub fn assoc_pairs(entries: &mut Vec<Value>, items: &Vec<Value>)
    ensures
        data(final(entries)@) == assoc_all(
            data(old(entries)@),
            data(items@),
            (items.len() - items.len() % 2) as nat,
        ),
{
    let mut i: usize = 0;
    while i + 1 < items.len()
        invariant
            0 <= i,
            i % 2 == 0,
            i <= items.len(),
            data(entries@) == assoc_all(data(old(entries)@), data(items@), i as nat),
        decreases items.len() - i,
    {
        proof {
            lemma_data_index(items@, i as int);
            lemma_data_index(items@, i + 1);
        }
        assoc_entry(entries, items[i].clone(), items[i + 1].clone());
        i = i + 2;
    }
}

/// `assoc`
pub fn assoc(interpreter: &mut Interpreter, args: &[Value]) -> (r: EvaluationResult<Value>)
    ensures
        *final(interpreter) == *old(interpreter),
        agrees(r, assoc_spec(data(args@))),
{
    if args.len() < 3 {
        return Err(wrong_arity_error());
    }
    if (args.len() - 1) % 2 != 0 {
        return Err(list_failure("assoc needs keys and values to pair"));
    }
    proof {
        lemma_data_index(args@, 0);
    }
    match &args[0] {
        Value::HashMap(map) => {
            let mut entries = vector_to_vec(&map.entries);
            let more = operands_from(args, 1);
            assoc_pairs(&mut entries, &more);
            Ok(
                Value::HashMap(
                    PersistentMap { entries: crate::collections::vector_from_vec(entries) },
                ),
            )
        },
        _ => Err(incorrect_argument_error()),
    }
}

/// `dissoc`
pub fn dissoc(interpreter: &mut Interpreter, args: &[Value]) -> (r: EvaluationResult<Value>)
    ensures
        *final(interpreter) == *old(interpreter),
        agrees(r, dissoc_spec(data(args@))),
{
    if args.len() == 0 {
        return Err(wrong_arity_error());
    }
    proof {
        lemma_data_index(args@, 0);
    }
    match &args[0] {
        Value::HashMap(map) => {
            let mut entries = vector_to_vec(&map.entries);
            let ghost start = data(entries@);
            let keys = operands_from(args, 1);
            let mut i: usize = 0;
            while i < keys.len()
                invariant
                    0 <= i <= keys.len(),
                    data(entries@) == dissoc_all(start, data(keys@), i as nat),
                decreases keys.len() - i,
            {
                proof {
                    lemma_data_index(keys@, i as int);
                }
                dissoc_entry(&mut entries, &keys[i]);
                i = i + 1;
            }
            Ok(
                Value::HashMap(
                    PersistentMap { entries: crate::collections::vector_from_vec(entries) },
                ),
            )
        },
        _ => Err(incorrect_argument_error()),
    }
}

/// `get`
pub fn get(interpreter: &mut Interpreter, args: &[Value]) -> (r: EvaluationResult<Value>)
    ensures
        *final(interpreter) == *old(interpreter),
        agrees(r, get_spec(data(args@))),
{
    if args.len() != 2 {
        return Err(wrong_arity_error());
    }
    proof {
        lemma_data_index(args@, 0);
        lemma_data_index(args@, 1);
    }
    match &args[0] {
        Value::Nil => Ok(Value::Nil),
        Value::HashMap(map) => {
            let entries = vector_to_vec(&map.entries);
            match lookup_entry(&entries, &args[1]) {
                Some(v) => Ok(v.clone()),
                None => Ok(Value::Nil),
            }
        },
        _ => Err(incorrect_argument_error()),
    }
}

/// `contains?`
pub fn does_contain(interpreter: &mut Interpreter, args: &[Value]) -> (r: EvaluationResult<Value>)
    ensures
        *final(interpreter) == *old(interpreter),
        agrees(r, does_contain_spec(data(args@))),
{
    if args.len() != 2 {
        return Err(wrong_arity_error());
    }
    proof {
        lemma_data_index(args@, 0);
        lemma_data_index(args@, 1);
    }
    match &args[0] {
        Value::HashMap(map) => {
            let entries = vector_to_vec(&map.entries);
            Ok(Value::Bool(lookup_entry(&entries, &args[1]).is_some()))
        },
        _ => Err(incorrect_argument_error()),
    }
}

/// The keys or the values of a map.
fn column(keys: bool, args: &[Value]) -> (r: EvaluationResult<Value>)
    ensures
        agrees(r, column_spec(keys, data(args@))),
{
    if args.len() != 1 {
        return Err(wrong_arity_error());
    }
    proof {
        lemma_data_index(args@, 0);
    }
    match &args[0] {
        Value::HashMap(map) => {
            let entries = vector_to_vec(&map.entries);
            if entries.len() / 2 == 0 {
                return Ok(Value::Nil);
            }
            let ghost terms = data(entries@);
            let mut out: Vec<Value> = Vec::new();
            let mut i: usize = 0;
            while i + 1 < entries.len()
                invariant
                    0 <= i <= entries.len(),
                    i % 2 == 0,
                    terms == data(entries@),
                    data(out@).len() == i / 2,
                    forall|k: int|
                        0 <= k < i / 2 ==> #[trigger] data(out@)[k] == (if keys {
                            terms[2 * k]
                        } else {
                            terms[2 * k + 1]
                        }),
                decreases entries.len() - i,
            {
                let v = if keys {
                    entries[i].clone()
                } else {
                    entries[i + 1].clone()
                };
                proof {
                    lemma_data_index(entries@, i as int);
                    lemma_data_index(entries@, i + 1);
                    lemma_data_push(out@, v);
                }
                out.push(v);
                i = i + 2;
            }
            proof {
                assert(terms.len() == entries.len());
                if keys {
                    assert(data(out@) =~= keys_of(terms));
                } else {
                    assert(data(out@) =~= vals_of(terms));
                }
            }
            Ok(list_with_values(out))
        },
        _ => Err(incorrect_argument_error()),
    }
}

/// `keys`
pub fn to_keys(interpreter: &mut Interpreter, args: &[Value]) -> (r: EvaluationResult<Value>)
    ensures
        *final(interpreter) == *old(interpreter),
        agrees(r, column_spec(true, data(args@))),
{
    column(true, args)
}

/// `vals`
pub fn to_vals(interpreter: &mut Interpreter, args: &[Value]) -> (r: EvaluationResult<Value>)
    ensures
        *final(interpreter) == *old(interpreter),
        agrees(r, column_spec(false, data(args@))),
{
    column(false, args)
}

/// `conj`
pub fn conj(interpreter: &mut Interpreter, args: &[Value]) -> (r: EvaluationResult<Value>)
    ensures
        *final(interpreter) == *old(interpreter),
        agrees(r, conj_spec(data(args@))),
{
    if args.len() < 2 {
        return Err(wrong_arity_error());
    }
    proof {
        lemma_data_index(args@, 0);
    }
    let more = operands_from(args, 1);
    let ghost extra = data(more@);
    match &args[0] {
        Value::Nil => Ok(list_with_values(more)),
        Value::List(seq) => {
            let mut inner = crate::collections::list_clone(seq);
            let ghost xs = crate::collections::list_items(*seq);
            let mut i: usize = 0;
            assert(crate::collections::list_items(inner) =~= reversed(extra, 0) + xs);
            while i < more.len()
                invariant
                    0 <= i <= more.len(),
                    extra == data(more@),
                    crate::collections::list_items(inner) == reversed(extra, i as nat) + xs,
                decreases more.len() - i,
            {
                proof {
                    lemma_data_index(more@, i as int);
                }
                inner = list_push_front(&inner, more[i].clone());
                i = i + 1;
                assert(crate::collections::list_items(inner) =~= reversed(extra, i as nat) + xs);
            }
            Ok(Value::List(inner))
        },
        Value::Vector(seq) => {
            let mut inner = crate::collections::vector_clone(seq);
            let ghost xs = crate::collections::vector_items(*seq);
            let mut i: usize = 0;
            assert(crate::collections::vector_items(inner) =~= xs + extra.take(0));
            while i < more.len()
                invariant
                    0 <= i <= more.len(),
                    extra == data(more@),
                    crate::collections::vector_items(inner) == xs + extra.take(i as int),
                decreases more.len() - i,
            {
                proof {
                    lemma_data_index(more@, i as int);
                }
                inner = crate::collections::vector_push_back(&inner, more[i].clone());
                i = i + 1;
                assert(crate::collections::vector_items(inner) =~= xs + extra.take(i as int));
            }
            assert(extra.take(more.len() as int) =~= extra);
            Ok(Value::Vector(inner))
        },
        Value::HashMap(map) => {
            let mut entries = vector_to_vec(&map.entries);
            let ghost start = data(entries@);
            let mut i: usize = 0;
            while i < more.len()
                invariant
                    0 <= i <= more.len(),
                    extra == data(more@),
                    args.len() >= 2,
                    extra == data(args@).skip(1),
                    data(args@)[0] == Datum::HashMap(start),
                    conj_entries(start, extra, i as nat) == Ok::<Seq<Datum>, Failure>(
                        data(entries@),
                    ),
                decreases more.len() - i,
            {
                proof {
                    lemma_data_index(more@, i as int);
                }
                let mut failed = false;
                match &more[i] {
                    Value::Vector(kv) => {
                        if crate::collections::vector_len(kv) == 2 {
                            match (
                                crate::collections::vector_get(kv, 0),
                                crate::collections::vector_get(kv, 1),
                            ) {
                                (Some(k), Some(v)) => {
                                    assoc_entry(&mut entries, k.clone(), v.clone());
                                },
                                _ => {},
                            }
                        } else {
                            failed = true;
                        }
                    },
                    Value::HashMap(elems) => {
                        let pairs = vector_to_vec(&elems.entries);
                        assoc_pairs(&mut entries, &pairs);
                    },
                    _ => {
                        failed = true;
                    },
                }
                if failed {
                    proof {
                        lemma_conj_fails(start, extra, i + 1, extra.len() as int);
                    }
                    return Err(incorrect_argument_error());
                }
                i = i + 1;
            }
            Ok(
                Value::HashMap(
                    PersistentMap { entries: crate::collections::vector_from_vec(entries) },
                ),
            )
        },
        Value::HashSet(set) => {
            let mut members = vector_to_vec(&set.members);
            let ghost start = data(members@);
            let mut i: usize = 0;
            while i < more.len()
                invariant
                    0 <= i <= more.len(),
                    extra == data(more@),
                    data(members@) == adjoin_all(start, extra, i as nat),
                decreases more.len() - i,
            {
                proof {
                    lemma_data_index(more@, i as int);
                }
                adjoin_member(&mut members, more[i].clone());
                i = i + 1;
            }
            Ok(
                Value::HashSet(
                    PersistentSet { members: crate::collections::vector_from_vec(members) },
                ),
            )
        },
        _ => Err(incorrect_argument_error()),
    }
}

/// Once adding to a map fails, it fails the same way however far it goes.
pub proof fn lemma_conj_fails(entries: Seq<Datum>, items: Seq<Datum>, k: int, n: int)
    requires
        0 <= k <= n <= items.len(),
        conj_entries(entries, items, k as nat) is Err,
    ensures
        conj_entries(entries, items, n as nat) == conj_entries(entries, items, k as nat),
    decreases n - k,
{
    if k < n {
        lemma_conj_fails(entries, items, k, n - 1);
    }
}

/// The texts of the operands, one after the other.
pub fn joined_text(args: &[Value]) -> (r: String)
    ensures
        r@ == str_text(data(args@), args.len() as nat),
{
    let mut out: Vec<char> = Vec::new();
    let ghost terms = data(args@);
    let mut i: usize = 0;
    assert(out@ =~= str_text(terms, 0));
    while i < args.len()
        invariant
            0 <= i <= args.len(),
            terms == data(args@),
            out@ == str_text(terms, i as nat),
        decreases args.len() - i,
    {
        proof {
            lemma_data_index(args@, i as int);
        }
        match &args[i] {
            Value::String(s) => push_str(&mut out, s.as_str()),
            other => write_value(&mut out, other, true),
        }
        i = i + 1;
    }
    string_of(&out)
}

/// `str`
pub fn to_str(interpreter: &mut Interpreter, args: &[Value]) -> (r: EvaluationResult<Value>)
    ensures
        *final(interpreter) == *old(interpreter),
        agrees(r, to_str_spec(data(args@))),
{
    if args.len() == 1 {
        proof {
            lemma_data_index(args@, 0);
        }
        if matches!(&args[0], Value::Nil) {
            return Ok(Value::String(String::new()));
        }
    }
    Ok(Value::String(joined_text(args)))
}

/// The texts of the operands with a space between them.
pub fn spaced_text(args: &[Value], readable: bool) -> (r: String)
    ensures
        r@ == spaced(data(args@), args.len() as nat, readable),
{
    let mut out: Vec<char> = Vec::new();
    let ghost terms = data(args@);
    let mut i: usize = 0;
    assert(out@ =~= spaced(terms, 0, readable));
    while i < args.len()
        invariant
            0 <= i <= args.len(),
            terms == data(args@),
            out@ == spaced(terms, i as nat, readable),
        decreases args.len() - i,
    {
        proof {
            lemma_data_index(args@, i as int);
        }
        let ghost before = out@;
        if i > 0 {
            out.push(' ');
        }
        write_value(&mut out, &args[i], readable);
        i = i + 1;
        assert(out@ =~= spaced(terms, i as nat, readable));
    }
    string_of(&out)
}

/// `pr-str`
pub fn pr_str(interpreter: &mut Interpreter, args: &[Value]) -> (r: EvaluationResult<Value>)
    ensures
        *final(interpreter) == *old(interpreter),
        agrees(r, spaced_spec(true, data(args@))),
{
    Ok(Value::String(spaced_text(args, true)))
}

/// `print-str`
pub fn print_str(interpreter: &mut Interpreter, args: &[Value]) -> (r: EvaluationResult<Value>)
    ensures
        *final(interpreter) == *old(interpreter),
        agrees(r, spaced_spec(false, data(args@))),
{
    Ok(Value::String(spaced_text(args, false)))
}

/// `read-string`
pub fn read_string(interpreter: &mut Interpreter, args: &[Value]) -> (r: EvaluationResult<Value>)
    ensures
        *final(interpreter) == *old(interpreter),
        agrees(r, read_string_spec(data(args@))),
{
    if args.len() != 1 {
        return Err(wrong_arity_error());
    }
    proof {
        lemma_data_index(args@, 0);
    }
    match &args[0] {
        Value::String(s) => match crate::reader::read_values(s.as_str()) {
            Ok(mut forms) => {
                if forms.len() == 0 {
                    Ok(Value::Nil)
                } else if forms.len() == 1 {
                    proof {
                        lemma_data_index(forms@, 0);
                    }
                    Ok(forms.pop().unwrap())
                } else {
                    Err(list_failure("`read-string` only reads one form"))
                }
            },
            Err(e) => Err(EvaluationError::ReaderError(e, s.clone())),
        },
        _ => Err(incorrect_argument_error()),
    }
}

/// `meta`
pub fn to_meta(interpreter: &mut Interpreter, args: &[Value]) -> (r: EvaluationResult<Value>)
    ensures
        *final(interpreter) == *old(interpreter),
        r matches Ok(v) && v@ == Datum::Nil,
{
    Ok(Value::Nil)
}

/// `with-meta`
pub fn with_meta(interpreter: &mut Interpreter, args: &[Value]) -> (r: EvaluationResult<Value>)
    ensures
        *final(interpreter) == *old(interpreter),
        r matches Ok(v) && v@ == Datum::Nil,
{
    Ok(Value::Nil)
}

/// Prints the texts of the operands with spaces between, and then `end`.
fn print_operands(interpreter: &mut Interpreter, args: &[Value], readable: bool, newline: bool) -> (r:
    EvaluationResult<Value>)
    ensures
        final(interpreter)@ == crate::world::emit(
            old(interpreter)@,
            if newline {
                spaced(data(args@), args.len() as nat, readable) + seq!['\n']
            } else {
                spaced(data(args@), args.len() as nat, readable)
            },
        ),
        final(interpreter).depth == old(interpreter).depth,
        r matches Ok(v) && v@ == Datum::Nil,
{
    let text = spaced_text(args, readable);
    let ghost before = interpreter.output@;
    push_str(&mut interpreter.output, text.as_str());
    if newline {
        interpreter.output.push('\n');
        assert(interpreter.output@ =~= before + (text@ + seq!['\n']));
    }
    Ok(Value::Nil)
}

/// `pr`: prints the operands in the readable style.
pub fn pr(interpreter: &mut Interpreter, args: &[Value]) -> (r: EvaluationResult<Value>)
    ensures
        crate::interpreter::leaves(
            final(interpreter)@,
            r,
            call_primitive(
                old(interpreter)@,
                Primitive::Pr,
                data(args@),
                old(interpreter).depth as nat,
            ),
        ),
        final(interpreter).depth == old(interpreter).depth,
{
    print_operands(interpreter, args, true, false)
}

/// `prn`: prints the operands in the readable style, and a line end.
pub fn prn(interpreter: &mut Interpreter, args: &[Value]) -> (r: EvaluationResult<Value>)
    ensures
        crate::interpreter::leaves(
            final(interpreter)@,
            r,
            call_primitive(
                old(interpreter)@,
                Primitive::Prn,
                data(args@),
                old(interpreter).depth as nat,
            ),
        ),
        final(interpreter).depth == old(interpreter).depth,
{
    print_operands(interpreter, args, true, true)
}

/// `print`: prints the operands in the plain style.
pub fn print_(interpreter: &mut Interpreter, args: &[Value]) -> (r: EvaluationResult<Value>)
    ensures
        crate::interpreter::leaves(
            final(interpreter)@,
            r,
            call_primitive(
                old(interpreter)@,
                Primitive::Print,
                data(args@),
                old(interpreter).depth as nat,
            ),
        ),
        final(interpreter).depth == old(interpreter).depth,
{
    print_operands(interpreter, args, false, false)
}

/// `println`: prints the operands in the plain style, and a line end.
pub fn println(interpreter: &mut Interpreter, args: &[Value]) -> (r: EvaluationResult<Value>)
    ensures
        crate::interpreter::leaves(
            final(interpreter)@,
            r,
            call_primitive(
                old(interpreter)@,
                Primitive::Println,
                data(args@),
                old(interpreter).depth as nat,
            ),
        ),
        final(interpreter).depth == old(interpreter).depth,
{
    print_operands(interpreter, args, false, true)
}

/// `atom`: a new atom that holds the operand.
pub fn to_atom(interpreter: &mut Interpreter, args: &[Value]) -> (r: EvaluationResult<Value>)
    ensures
        crate::interpreter::leaves(
            final(interpreter)@,
            r,
            call_primitive(
                old(interpreter)@,
                Primitive::Atom,
                data(args@),
                old(interpreter).depth as nat,
            ),
        ),
        final(interpreter).depth == old(interpreter).depth,
{
    if args.len() != 1 {
        return Err(wrong_arity_error());
    }
    proof {
        lemma_data_index(args@, 0);
    }
    let cell = interpreter.atom_new(args[0].clone());
    Ok(Value::Atom(cell))
}

/// `deref`: what an atom or a bound var holds.
pub fn deref(interpreter: &mut Interpreter, args: &[Value]) -> (r: EvaluationResult<Value>)
    ensures
        *final(interpreter) == *old(interpreter),
        agrees(r, deref_spec(old(interpreter)@, data(args@))),
{
    if args.len() != 1 {
        return Err(wrong_arity_error());
    }
    proof {
        lemma_data_index(args@, 0);
    }
    match &args[0] {
        Value::Atom(cell) => Ok(interpreter.atom_get(*cell)),
        Value::Var(var) => match interpreter.var_get(var.cell) {
            Some(v) => Ok(v.clone()),
            None => Err(EvaluationError::CannotDerefUnboundVar(args[0].clone())),
        },
        _ => Err(incorrect_argument_error()),
    }
}

/// `reset!`: puts a value into an atom and gives the value.
pub fn reset_atom(interpreter: &mut Interpreter, args: &[Value]) -> (r: EvaluationResult<Value>)
    ensures
        crate::interpreter::leaves(
            final(interpreter)@,
            r,
            call_primitive(
                old(interpreter)@,
                Primitive::ResetAtom,
                data(args@),
                old(interpreter).depth as nat,
            ),
        ),
        final(interpreter).depth == old(interpreter).depth,
{
    if args.len() != 2 {
        return Err(wrong_arity_error());
    }
    proof {
        lemma_data_index(args@, 0);
        lemma_data_index(args@, 1);
    }
    match &args[0] {
        Value::Atom(cell) => {
            let value = args[1].clone();
            interpreter.atom_set(*cell, value.clone());
            Ok(value)
        },
        _ => Err(incorrect_argument_error()),
    }
}

/// Whether a value can be applied.
pub fn is_applicable(v: &Value) -> (r: bool)
    ensures
        r == applicable(v@),
{
    matches!(v, Value::Fn(_)) || matches!(v, Value::FnWithCaptures(_)) || matches!(
        v,
        Value::Primitive(_)
    )
}

/// `swap!`: applies a function to what an atom holds and to the further
/// operands, puts the result into the atom and gives it.
pub fn swap_atom(interpreter: &mut Interpreter, args: &[Value]) -> (r: EvaluationResult<Value>)
    ensures
        crate::interpreter::leaves(
            final(interpreter)@,
            r,
            call_primitive(
                old(interpreter)@,
                Primitive::SwapAtom,
                data(args@),
                old(interpreter).depth as nat,
            ),
        ),
        final(interpreter).depth == old(interpreter).depth,
    decreases old(interpreter).depth, 41nat, 0nat,
{
    if args.len() < 2 {
        return Err(wrong_arity_error());
    }
    proof {
        lemma_data_index(args@, 0);
        lemma_data_index(args@, 1);
    }
    match &args[0] {
        Value::Atom(cell) => {
            if !is_applicable(&args[1]) {
                return Err(incorrect_argument_error());
            }
            if interpreter.depth == 0 {
                return Err(crate::interpreter::budget_spent());
            }
            let mut operands: Vec<Value> = Vec::new();
            operands.push(interpreter.atom_get(*cell));
            let ghost head = operands@;
            let mut more = operands_from(args, 2);
            proof {
                lemma_data_add(head, more@);
                assert(data(head) =~= seq![crate::world::atom_value(old(interpreter)@, *cell)]);
            }
            operands.append(&mut more);
            interpreter.depth = interpreter.depth - 1;
            let result = interpreter.invoke(&args[1], &operands);
            interpreter.depth = interpreter.depth + 1;
            match result {
                Ok(v) => {
                    interpreter.atom_set(*cell, v.clone());
                    Ok(v)
                },
                Err(e) => Err(e),
            }
        },
        _ => Err(incorrect_argument_error()),
    }
}

/// `eval`: evaluates a form with only the outermost scope.
pub fn eval(interpreter: &mut Interpreter, args: &[Value]) -> (r: EvaluationResult<Value>)
    ensures
        crate::interpreter::leaves(
            final(interpreter)@,
            r,
            call_primitive(
                old(interpreter)@,
                Primitive::Eval,
                data(args@),
                old(interpreter).depth as nat,
            ),
        ),
        final(interpreter).depth == old(interpreter).depth,
    decreases old(interpreter).depth, 41nat, 0nat,
{
    if args.len() != 1 {
        return Err(wrong_arity_error());
    }
    proof {
        lemma_data_index(args@, 0);
    }
    interpreter.evaluate_in_global_scope(&args[0])
}

/// `apply`: applies a function to the operands between it and the last
/// operand, then the items of the last operand.
pub fn apply(interpreter: &mut Interpreter, args: &[Value]) -> (r: EvaluationResult<Value>)
    ensures
        crate::interpreter::leaves(
            final(interpreter)@,
            r,
            call_primitive(
                old(interpreter)@,
                Primitive::Apply,
                data(args@),
                old(interpreter).depth as nat,
            ),
        ),
        final(interpreter).depth == old(interpreter).depth,
    decreases old(interpreter).depth, 41nat, 0nat,
{
    if args.len() < 2 {
        return Err(wrong_arity_error());
    }
    proof {
        lemma_data_index(args@, 0);
        lemma_data_index(args@, args.len() - 1);
    }
    let mut tail = match items_in(&args[args.len() - 1]) {
        Some(items) => items,
        None => {
            return Err(incorrect_argument_error());
        },
    };
    let mut fn_args: Vec<Value> = Vec::new();
    let mut i: usize = 1;
    assert(data(fn_args@) =~= data(args@).subrange(1, 1));
    while i < args.len() - 1
        invariant
            1 <= i <= args.len() - 1,
            data(fn_args@) == data(args@).subrange(1, i as int),
        decreases args.len() - i,
    {
        let v = args[i].clone();
        proof {
            lemma_data_push(fn_args@, v);
            lemma_data_index(args@, i as int);
        }
        fn_args.push(v);
        i = i + 1;
        assert(data(fn_args@) =~= data(args@).subrange(1, i as int));
    }
    proof {
        lemma_data_add(fn_args@, tail@);
    }
    fn_args.append(&mut tail);
    if interpreter.depth == 0 {
        return Err(crate::interpreter::budget_spent());
    }
    interpreter.depth = interpreter.depth - 1;
    let result = interpreter.invoke(&args[0], &fn_args);
    interpreter.depth = interpreter.depth + 1;
    result
}

/// Applies a function to each item from the last to the first and gives
/// the results in the order of the items.
fn map_each(interpreter: &mut Interpreter, callee: &Value, items: &Vec<Value>) -> (r: Result<
    Vec<Value>,
    EvaluationError,
>)
    ensures
        crate::interpreter::leaves_many(
            final(interpreter)@,
            r,
            map_items(
                old(interpreter)@,
                callee@,
                data(items@),
                items.len() as nat,
                Seq::empty(),
                old(interpreter).depth as nat,
            ),
        ),
        final(interpreter).depth == old(interpreter).depth,
    decreases old(interpreter).depth, 41nat, 0nat,
{
    let mut done: Vec<Value> = Vec::new();
    let ghost w = interpreter@;
    let ghost fuel = interpreter.depth as nat;
    let ghost terms = data(items@);
    let mut n: usize = items.len();
    assert(reversed_data(done@) =~= Seq::<Datum>::empty());
    while n > 0
        invariant
            0 <= n <= items.len(),
            terms == data(items@),
            w == old(interpreter)@,
            fuel == old(interpreter).depth,
            interpreter.depth == old(interpreter).depth,
            map_items(w, callee@, terms, terms.len(), Seq::empty(), fuel) == map_items(
                interpreter@,
                callee@,
                terms,
                n as nat,
                reversed_data(done@),
                fuel,
            ),
        decreases n,
    {
        if interpreter.depth == 0 {
            return Err(crate::interpreter::budget_spent());
        }
        let mut one: Vec<Value> = Vec::new();
        one.push(items[n - 1].clone());
        proof {
            lemma_data_index(items@, n - 1);
            assert(data(one@) =~= seq![terms[n - 1]]);
        }
        interpreter.depth = interpreter.depth - 1;
        let result = match callee {
            Value::Primitive(p) => interpreter.call_primitive(*p, &one),
            Value::Fn(f) => interpreter.apply_fn_inner(f, &one),
            Value::FnWithCaptures(c) => interpreter.apply_fn_inner(&c.f, &one),
            _ => Err(incorrect_argument_error()),
        };
        interpreter.depth = interpreter.depth + 1;
        match result {
            Ok(v) => {
                proof {
                    lemma_reversed_push(done@, v);
                }
                done.push(v);
            },
            Err(e) => {
                return Err(e);
            },
        }
        n = n - 1;
    }
    let mut out: Vec<Value> = Vec::new();
    let mut k: usize = done.len();
    assert(data(out@) =~= reversed_data(done@).take(0));
    while k > 0
        invariant
            0 <= k <= done.len(),
            data(out@) == reversed_data(done@).take(done.len() - k),
        decreases k,
    {
        let v = done[k - 1].clone();
        proof {
            lemma_data_push(out@, v);
            lemma_data_index(done@, k - 1);
        }
        out.push(v);
        k = k - 1;
        assert(data(out@) =~= reversed_data(done@).take(done.len() - k));
    }
    assert(reversed_data(done@).take(done.len() as int) =~= reversed_data(done@));
    Ok(out)
}

/// The views of a run of values, last value first.
pub open spec fn reversed_data(values: Seq<Value>) -> Seq<Datum> {
    Seq::new(values.len(), |i: int| values[values.len() - 1 - i]@)
}

/// The reversed views of a run with one more value.
pub proof fn lemma_reversed_push(values: Seq<Value>, v: Value)
    ensures
        reversed_data(values.push(v)) == seq![v@] + reversed_data(values),
{
    assert(reversed_data(values.push(v)) =~= seq![v@] + reversed_data(values));
}

/// `map`: the list of the results of a function applied to each item of a
/// collection. The function is applied to the last item first.
pub fn map(interpreter: &mut Interpreter, args: &[Value]) -> (r: EvaluationResult<Value>)
    ensures
        crate::interpreter::leaves(
            final(interpreter)@,
            r,
            call_primitive(
                old(interpreter)@,
                Primitive::MapOver,
                data(args@),
                old(interpreter).depth as nat,
            ),
        ),
        final(interpreter).depth == old(interpreter).depth,
    decreases old(interpreter).depth, 41nat, 1nat,
{
    if args.len() != 2 {
        return Err(wrong_arity_error());
    }
    proof {
        lemma_data_index(args@, 0);
        lemma_data_index(args@, 1);
    }
    let items = match items_in(&args[1]) {
        Some(items) => items,
        None => {
            return Err(incorrect_argument_error());
        },
    };
    match &args[0] {
        Value::FnWithCaptures(c) => {
            match interpreter.extend_from_captures(&c.names, &c.values) {
                Err(e) => Err(e),
                Ok(_) => {
                    let result = map_each(interpreter, &args[0], &items);
                    interpreter.leave_scope();
                    match result {
                        Ok(values) => Ok(list_with_values(values)),
                        Err(e) => Err(e),
                    }
                },
            }
        },
        other => {
            if is_applicable(other) {
                match map_each(interpreter, other, &items) {
                    Ok(values) => Ok(list_with_values(values)),
                    Err(e) => Err(e),
                }
            } else {
                Err(
                    EvaluationError::WrongType {
                        expected: String::from_str("Fn, FnWithCaptures, Primitive"),
                        realized: other.clone(),
                    },
                )
            }
        },
    }
}

/// An input or output error with a message.
fn io_error(message: String) -> (e: EvaluationError)
    ensures
        e@ == Failure::IOError(message@),
{
    EvaluationError::Interpreter(crate::errors::InterpreterError::IOError(message))
}

/// A call of a procedure of the host's own: gives the answer that the host
/// supplied, or stops for it.
pub fn host_call(interpreter: &mut Interpreter, id: usize, args: &[Value]) -> (r: EvaluationResult<
    Value,
>)
    ensures
        crate::interpreter::leaves(
            final(interpreter)@,
            r,
            crate::semantics::host_spec(old(interpreter)@, id, data(args@)),
        ),
        final(interpreter).depth == old(interpreter).depth,
{
    if interpreter.answers.len() > 0 {
        let ghost all = interpreter.answers@;
        let answer = interpreter.answers.remove(0);
        assert(data(interpreter.answers@) =~= data(all).skip(1));
        proof {
            lemma_data_index(all, 0);
        }
        Ok(answer)
    } else {
        let mut operands: Vec<Value> = Vec::new();
        let mut i: usize = 0;
        while i < args.len()
            invariant
                0 <= i <= args.len(),
                operands@.len() == i,
                forall|k: int| 0 <= k < i ==> (#[trigger] operands@[k])@ == args@[k]@,
            decreases args.len() - i,
        {
            operands.push(args[i].clone());
            i = i + 1;
        }
        assert(data(operands@) =~= data(args@));
        interpreter.wanted = Want::Call(id, operands);
        Err(io_error(String::from_str("the host has not answered yet")))
    }
}

/// `slurp`: the contents of a file that the host made readable.
pub fn slurp(interpreter: &mut Interpreter, args: &[Value]) -> (r: EvaluationResult<Value>)
    ensures
        crate::interpreter::leaves(
            final(interpreter)@,
            r,
            slurp_spec(old(interpreter)@, data(args@)),
        ),
        final(interpreter).depth == old(interpreter).depth,
{
    if args.len() != 1 {
        return Err(wrong_arity_error());
    }
    proof {
        lemma_data_index(args@, 0);
    }
    match &args[0] {
        Value::String(path) => match interpreter.files.get(path.as_str()) {
            Some(contents) => Ok(contents.clone()),
            None => {
                let mut message = String::from_str("file not found: ");
                message.append(path.as_str());
                interpreter.wanted = Want::File(path.clone());
                Err(io_error(message))
            },
        },
        _ => Err(incorrect_argument_error()),
    }
}

/// `spit`: makes the plain text of a value the contents of a file.
pub fn spit(interpreter: &mut Interpreter, args: &[Value]) -> (r: EvaluationResult<Value>)
    ensures
        crate::interpreter::leaves(final(interpreter)@, r, spit_spec(old(interpreter)@, data(args@))),
        final(interpreter).depth == old(interpreter).depth,
{
    if args.len() != 2 {
        return Err(wrong_arity_error());
    }
    proof {
        lemma_data_index(args@, 0);
        lemma_data_index(args@, 1);
    }
    match &args[0] {
        Value::String(path) => {
            let contents = args[1].to_plain_string();
            interpreter.files.put(path.as_str(), Value::String(contents.clone()));
            interpreter.written.put(path.as_str(), Value::String(contents));
            Ok(Value::Nil)
        },
        _ => Err(incorrect_argument_error()),
    }
}

/// `readline`: prints a prompt and gives the next line of input.
pub fn readline(interpreter: &mut Interpreter, args: &[Value]) -> (r: EvaluationResult<Value>)
    ensures
        crate::interpreter::leaves(
            final(interpreter)@,
            r,
            readline_spec(old(interpreter)@, data(args@)),
        ),
        final(interpreter).depth == old(interpreter).depth,
{
    if args.len() != 1 {
        return Err(wrong_arity_error());
    }
    proof {
        lemma_data_index(args@, 0);
    }
    match &args[0] {
        Value::String(prompt) => {
            push_str(&mut interpreter.output, prompt.as_str());
            if interpreter.lines.len() == 0 && interpreter.live && !interpreter.ended {
                interpreter.wanted = Want::Line;
                Err(io_error(String::from_str("no line of input yet")))
            } else if interpreter.lines.len() == 0 {
                let ghost before = interpreter.output@;
                interpreter.output.push('\n');
                assert(interpreter.output@ =~= before + seq!['\n']);
                Ok(Value::Nil)
            } else {
                let ghost all = interpreter.lines@;
                let line = interpreter.lines.remove(0);
                assert(crate::value::texts(interpreter.lines@) =~= crate::value::texts(all).skip(
                    1,
                ));
                Ok(Value::String(line))
            }
        },
        _ => Err(incorrect_argument_error()),
    }
}

/// `time-ms`: milliseconds since the epoch, as the host last set them.
pub fn time_in_millis(interpreter: &mut Interpreter, args: &[Value]) -> (r: EvaluationResult<Value>)
    ensures
        crate::interpreter::leaves(
            final(interpreter)@,
            r,
            call_primitive(
                old(interpreter)@,
                Primitive::TimeMs,
                data(args@),
                old(interpreter).depth as nat,
            ),
        ),
        final(interpreter).depth == old(interpreter).depth,
{
    if args.len() != 0 {
        return Err(wrong_arity_error());
    }
    if interpreter.moments.len() > 0 {
        let moment = interpreter.moments.remove(0);
        assert(interpreter.moments@ =~= old(interpreter).moments@.skip(1));
        Ok(Value::Number(moment))
    } else if interpreter.live {
        interpreter.wanted = Want::Moment;
        Err(io_error(String::from_str("the time is not known yet")))
    } else {
        Ok(Value::Number(interpreter.clock))
    }
}

} // verus!
