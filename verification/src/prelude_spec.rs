//! What each primitive that reads nothing but its arguments returns.
use crate::equality::datum_equal;
use crate::errors::Failure;
use crate::maps::{adjoin_all, assoc_all, dissoc_all, keys_of, lookup, marked, vals_of};
use crate::printer::print;
use crate::reader::read_spec;
use crate::value::Datum;
use vstd::prelude::*;

verus! {

/// The error of a primitive that got the wrong number of arguments.
pub open spec fn wrong_arity() -> Failure {
    Failure::ListFailure("wrong arity"@)
}

/// The error of a primitive that got an argument of the wrong kind.
pub open spec fn incorrect_argument() -> Failure {
    Failure::ListFailure("incorrect argument"@)
}

/// One step of `+`, `-`, `*` or `/` on the running result.
#[derive(Clone, Copy, PartialEq, Eq, Structural, Debug)]
pub enum Arithmetic {
    Add,
    Sub,
    Mul,
    Div,
}

/// The result of one step, or nothing where it does not fit in 64 bits or
/// divides by zero.
pub open spec fn step(op: Arithmetic, acc: i64, x: i64) -> Option<i64> {
    match op {
        Arithmetic::Add => acc.checked_add(x),
        Arithmetic::Sub => acc.checked_sub(x),
        Arithmetic::Mul => acc.checked_mul(x),
        Arithmetic::Div => acc.checked_div_euclid(x),
    }
}

/// The message for a step whose result does not fit.
pub open spec fn overflow_text(op: Arithmetic) -> Seq<char> {
    match op {
        Arithmetic::Sub => "underflow detected"@,
        _ => "overflow detected"@,
    }
}

/// The message for an argument that is no number.
pub open spec fn operand_text(op: Arithmetic) -> Seq<char> {
    match op {
        Arithmetic::Add => "plus only takes number arguments"@,
        Arithmetic::Sub => "subtract only takes number arguments"@,
        Arithmetic::Mul => "multiply only takes number arguments"@,
        Arithmetic::Div => "divide only takes number arguments"@,
    }
}

/// Folds the arguments `from..n` into `start`, left to right.
pub open spec fn fold(op: Arithmetic, args: Seq<Datum>, from: int, n: int, start: i64) -> Result<
    i64,
    Failure,
>
    decreases n - from,
{
    if n <= from || n > args.len() {
        Ok(start)
    } else {
        match fold(op, args, from, n - 1, start) {
            Ok(acc) => match args[n - 1] {
                Datum::Number(x) => match step(op, acc, x) {
                    Some(next) => Ok(next),
                    None => Err(Failure::PrimitiveFailure(overflow_text(op))),
                },
                _ => Err(Failure::PrimitiveFailure(operand_text(op))),
            },
            Err(e) => Err(e),
        }
    }
}

/// A number as a value, an error as it is.
pub open spec fn number(r: Result<i64, Failure>) -> Result<Datum, Failure> {
    match r {
        Ok(n) => Ok(Datum::Number(n)),
        Err(e) => Err(e),
    }
}

/// `+`: the sum of the arguments, 0 for none.
pub open spec fn plus_spec(args: Seq<Datum>) -> Result<Datum, Failure> {
    number(fold(Arithmetic::Add, args, 0, args.len() as int, 0))
}

/// `*`: the product of the arguments, 1 for none.
pub open spec fn multiply_spec(args: Seq<Datum>) -> Result<Datum, Failure> {
    number(fold(Arithmetic::Mul, args, 0, args.len() as int, 1))
}

/// `-`: the negation of one argument, or the first minus the others.
pub open spec fn subtract_spec(args: Seq<Datum>) -> Result<Datum, Failure> {
    if args.len() == 0 {
        Err(Failure::PrimitiveFailure("subtract needs more than 0 args"@))
    } else if args.len() == 1 {
        match args[0] {
            Datum::Number(x) => match 0i64.checked_sub(x) {
                Some(n) => Ok(Datum::Number(n)),
                None => Err(Failure::PrimitiveFailure("negation failed"@)),
            },
            _ => Err(Failure::PrimitiveFailure("negation requires an integer argument"@)),
        }
    } else {
        match args[0] {
            Datum::Number(first) => number(
                fold(Arithmetic::Sub, args, 1, args.len() as int, first),
            ),
            _ => Err(Failure::PrimitiveFailure("subtract only takes number arguments"@)),
        }
    }
}

/// `/`: one divided by the one argument, or the first divided by the
/// others; the quotients are Euclidean.
pub open spec fn divide_spec(args: Seq<Datum>) -> Result<Datum, Failure> {
    if args.len() == 0 {
        Err(Failure::PrimitiveFailure("divide needs more than 0 args"@))
    } else if args.len() == 1 {
        match args[0] {
            Datum::Number(x) => match 1i64.checked_div_euclid(x) {
                Some(n) => Ok(Datum::Number(n)),
                None => Err(Failure::PrimitiveFailure("overflow detected"@)),
            },
            _ => Err(Failure::PrimitiveFailure("divide requires number arguments"@)),
        }
    } else {
        match args[0] {
            Datum::Number(first) => number(
                fold(Arithmetic::Div, args, 1, args.len() as int, first),
            ),
            _ => Err(Failure::PrimitiveFailure("divide only takes number arguments"@)),
        }
    }
}

/// The four comparisons of numbers.
#[derive(Clone, Copy, PartialEq, Eq, Structural, Debug)]
pub enum Comparison {
    Less,
    LessEq,
    Greater,
    GreaterEq,
}

/// Whether the comparison holds of two numbers.
pub open spec fn holds(c: Comparison, a: i64, b: i64) -> bool {
    match c {
        Comparison::Less => a < b,
        Comparison::LessEq => a <= b,
        Comparison::Greater => a > b,
        Comparison::GreaterEq => a >= b,
    }
}

/// `<`, `<=`, `>`, `>=`: on exactly two numbers.
pub open spec fn compare_spec(c: Comparison, args: Seq<Datum>) -> Result<Datum, Failure> {
    if args.len() != 2 {
        Err(wrong_arity())
    } else {
        match (args[0], args[1]) {
            (Datum::Number(a), Datum::Number(b)) => Ok(Datum::Bool(holds(c, a, b))),
            _ => Err(incorrect_argument()),
        }
    }
}

/// `=`: whether two values are equal.
pub open spec fn equal_spec(args: Seq<Datum>) -> Result<Datum, Failure> {
    if args.len() != 2 {
        Err(wrong_arity())
    } else {
        Ok(Datum::Bool(datum_equal(args[0], args[1])))
    }
}

/// The kinds of values that the predicates ask about.
#[derive(Clone, Copy, PartialEq, Eq, Structural, Debug)]
pub enum Kind {
    List,
    Atom,
    Nil,
    True,
    False,
    Symbol,
    Keyword,
    Vector,
    Sequential,
    HashMap,
    HashSet,
    String,
    Number,
    Fn,
    Macro,
}

/// Whether a value is of a kind.
pub open spec fn is_kind(k: Kind, d: Datum) -> bool {
    match k {
        Kind::List => d is List,
        Kind::Atom => d is Atom,
        Kind::Nil => d is Nil,
        Kind::True => d == Datum::Bool(true),
        Kind::False => d == Datum::Bool(false),
        Kind::Symbol => d is Symbol,
        Kind::Keyword => d is Keyword,
        Kind::Vector => d is Vector,
        Kind::Sequential => d is List || d is Vector,
        Kind::HashMap => d is HashMap,
        Kind::HashSet => d is HashSet,
        Kind::String => d is String,
        Kind::Number => d is Number,
        Kind::Fn => d is Fn || d is FnWithCaptures || d is Primitive || d is Macro,
        Kind::Macro => d is Macro,
    }
}

/// The predicates: on exactly one argument.
pub open spec fn predicate_spec(k: Kind, args: Seq<Datum>) -> Result<Datum, Failure> {
    if args.len() != 1 {
        Err(wrong_arity())
    } else {
        Ok(Datum::Bool(is_kind(k, args[0])))
    }
}

/// `list`: the list of the arguments.
pub open spec fn list_spec(args: Seq<Datum>) -> Result<Datum, Failure> {
    Ok(Datum::List(args))
}

/// `vector`: the vector of the arguments.
pub open spec fn to_vector_spec(args: Seq<Datum>) -> Result<Datum, Failure> {
    Ok(Datum::Vector(args))
}

/// The items of a list or a vector.
pub open spec fn items_of(d: Datum) -> Option<Seq<Datum>> {
    match d {
        Datum::List(xs) => Some(xs),
        Datum::Vector(xs) => Some(xs),
        _ => None,
    }
}

/// How many items a collection holds, or how many bytes a string takes.
pub open spec fn size_of(d: Datum) -> Option<nat> {
    match d {
        Datum::Nil => Some(0),
        Datum::String(s) => Some((vstd::utf8::encode_utf8(s).len() as usize) as nat),
        Datum::List(xs) => Some(xs.len()),
        Datum::Vector(xs) => Some(xs.len()),
        Datum::HashMap(xs) => Some(xs.len() / 2),
        Datum::HashSet(xs) => Some(xs.len()),
        _ => None,
    }
}

/// `empty?`: whether a collection or a string holds nothing.
pub open spec fn is_empty_spec(args: Seq<Datum>) -> Result<Datum, Failure> {
    if args.len() != 1 {
        Err(wrong_arity())
    } else {
        match args[0] {
            Datum::String(s) => Ok(Datum::Bool(s.len() == 0)),
            other => match size_of(other) {
                Some(n) => Ok(Datum::Bool(n == 0)),
                None => Err(incorrect_argument()),
            },
        }
    }
}

/// A size as a number of the language: the largest number for a size
/// beyond it.
pub open spec fn size_number(n: nat) -> i64 {
    if n <= i64::MAX {
        n as i64
    } else {
        i64::MAX
    }
}

/// `count`: the size of a collection or a string.
pub open spec fn count_spec(args: Seq<Datum>) -> Result<Datum, Failure> {
    if args.len() != 1 {
        Err(wrong_arity())
    } else {
        match size_of(args[0]) {
            Some(n) => Ok(Datum::Number(size_number(n))),
            None => Err(incorrect_argument()),
        }
    }
}

/// `cons`: the list of an item and then the items of a collection.
pub open spec fn cons_spec(args: Seq<Datum>) -> Result<Datum, Failure> {
    if args.len() != 2 {
        Err(wrong_arity())
    } else {
        match items_of(args[1]) {
            Some(xs) => Ok(Datum::List(seq![args[0]] + xs)),
            None => Err(incorrect_argument()),
        }
    }
}

/// The items of the first `n` arguments, one collection after the other.
pub open spec fn joined(args: Seq<Datum>, n: nat) -> Result<Seq<Datum>, Failure>
    decreases n,
{
    if n == 0 || n > args.len() {
        Ok(Seq::empty())
    } else {
        match joined(args, (n - 1) as nat) {
            Ok(front) => match items_of(args[n - 1]) {
                Some(xs) => Ok(front + xs),
                None => Err(incorrect_argument()),
            },
            Err(e) => Err(e),
        }
    }
}

/// `concat`: the list of the items of all the arguments.
pub open spec fn concat_spec(args: Seq<Datum>) -> Result<Datum, Failure> {
    match joined(args, args.len()) {
        Ok(xs) => Ok(Datum::List(xs)),
        Err(e) => Err(e),
    }
}

/// `vec`: the vector of the items of a collection; the empty vector for
/// `nil`.
pub open spec fn vec_spec(args: Seq<Datum>) -> Result<Datum, Failure> {
    if args.len() != 1 {
        Err(wrong_arity())
    } else {
        match args[0] {
            Datum::Nil => Ok(Datum::Vector(Seq::empty())),
            other => match items_of(other) {
                Some(xs) => Ok(Datum::Vector(xs)),
                None => Err(incorrect_argument()),
            },
        }
    }
}

/// `nth`: the item at an index that is not negative.
pub open spec fn nth_spec(args: Seq<Datum>) -> Result<Datum, Failure> {
    if args.len() != 2 {
        Err(wrong_arity())
    } else {
        match args[1] {
            Datum::Number(index) => if index >= 0 {
                match items_of(args[0]) {
                    Some(xs) => if index < xs.len() {
                        Ok(xs[index as int])
                    } else {
                        Err(
                            Failure::ListFailure(
                                "collection does not have an element at this index"@,
                            ),
                        )
                    },
                    None => Err(incorrect_argument()),
                }
            } else {
                Err(incorrect_argument())
            },
            _ => Err(incorrect_argument()),
        }
    }
}

/// The ends of a collection.
#[derive(Clone, Copy, PartialEq, Eq, Structural, Debug)]
pub enum End {
    First,
    Last,
}

/// `first`, `last`: the item at an end; `nil` for an empty collection and
/// for `nil`.
pub open spec fn end_spec(end: End, args: Seq<Datum>) -> Result<Datum, Failure> {
    if args.len() != 1 {
        Err(wrong_arity())
    } else {
        match args[0] {
            Datum::Nil => Ok(Datum::Nil),
            other => match items_of(other) {
                Some(xs) => if xs.len() == 0 {
                    Ok(Datum::Nil)
                } else if end == End::First {
                    Ok(xs[0])
                } else {
                    Ok(xs[xs.len() - 1])
                },
                None => Err(incorrect_argument()),
            },
        }
    }
}

/// `rest`: the list of all items but the first; the empty list for an
/// empty collection and for `nil`.
pub open spec fn rest_spec(args: Seq<Datum>) -> Result<Datum, Failure> {
    if args.len() != 1 {
        Err(wrong_arity())
    } else {
        match args[0] {
            Datum::Nil => Ok(Datum::List(Seq::empty())),
            other => match items_of(other) {
                Some(xs) => if xs.len() == 0 {
                    Ok(Datum::List(Seq::empty()))
                } else {
                    Ok(Datum::List(xs.skip(1)))
                },
                None => Err(incorrect_argument()),
            },
        }
    }
}

/// `ex-info`: the exception of a message and a payload.
pub open spec fn ex_info_spec(args: Seq<Datum>) -> Result<Datum, Failure> {
    if args.len() != 2 {
        Err(wrong_arity())
    } else {
        match args[0] {
            Datum::String(message) => Ok(Datum::Exception(message, Box::new(args[1]), false)),
            _ => Err(incorrect_argument()),
        }
    }
}

/// Whether a value can be thrown as the payload of an exception.
pub open spec fn throwable(d: Datum) -> bool {
    d is Nil || d is Bool || d is Number || d is String || d is Keyword || d is Symbol || d is List
        || d is Vector || d is HashMap || d is HashSet
}

/// `throw`: the exception in flight; a plain value is first made the
/// payload of an exception without message.
pub open spec fn throw_spec(args: Seq<Datum>) -> Result<Datum, Failure> {
    if args.len() != 1 {
        Err(wrong_arity())
    } else if args[0] is Exception {
        Ok(marked(args[0], true))
    } else if throwable(args[0]) {
        Ok(Datum::Exception(Seq::empty(), Box::new(args[0]), true))
    } else {
        Err(incorrect_argument())
    }
}

/// `symbol`: the symbol named by a string.
pub open spec fn to_symbol_spec(args: Seq<Datum>) -> Result<Datum, Failure> {
    if args.len() != 1 {
        Err(wrong_arity())
    } else {
        match args[0] {
            Datum::String(name) => Ok(Datum::Symbol(name, None)),
            _ => Err(incorrect_argument()),
        }
    }
}

/// `keyword`: the keyword named by a string; a keyword as it is.
pub open spec fn to_keyword_spec(args: Seq<Datum>) -> Result<Datum, Failure> {
    if args.len() != 1 {
        Err(wrong_arity())
    } else {
        match args[0] {
            Datum::String(name) => Ok(Datum::Keyword(name, None)),
            Datum::Keyword(id, ns) => Ok(Datum::Keyword(id, ns)),
            _ => Err(incorrect_argument()),
        }
    }
}

/// `hash-map`: the map of the pairs that the arguments make.
pub open spec fn to_map_spec(args: Seq<Datum>) -> Result<Datum, Failure> {
    if args.len() % 2 != 0 {
        Err(Failure::ListFailure("map needs an even number of arguments"@))
    } else {
        Ok(Datum::HashMap(assoc_all(Seq::empty(), args, args.len())))
    }
}

/// The one-character strings of a string.
pub open spec fn letters(s: Seq<char>) -> Seq<Datum> {
    Seq::new(s.len(), |i: int| Datum::String(seq![s[i]]))
}

/// The entries of a map, each as a vector of key and value.
pub open spec fn pairs_of(entries: Seq<Datum>) -> Seq<Datum> {
    Seq::new(
        entries.len() / 2,
        |i: int| Datum::Vector(seq![entries[2 * i], entries[2 * i + 1]]),
    )
}

/// What a collection holds, as a run: the characters of a string, the
/// items of a list, a vector or a set, the entries of a map.
pub open spec fn contents_of(d: Datum) -> Option<Seq<Datum>> {
    match d {
        Datum::Nil => Some(Seq::empty()),
        Datum::String(s) => Some(letters(s)),
        Datum::List(xs) => Some(xs),
        Datum::Vector(xs) => Some(xs),
        Datum::HashMap(xs) => Some(pairs_of(xs)),
        Datum::HashSet(xs) => Some(xs),
        _ => None,
    }
}

/// `set`: the set of what a collection holds; a set as it is.
pub open spec fn to_set_spec(args: Seq<Datum>) -> Result<Datum, Failure> {
    if args.len() != 1 {
        Err(wrong_arity())
    } else {
        match args[0] {
            Datum::HashSet(xs) => Ok(Datum::HashSet(xs)),
            other => match contents_of(other) {
                Some(xs) => Ok(Datum::HashSet(adjoin_all(Seq::empty(), xs, xs.len()))),
                None => Err(incorrect_argument()),
            },
        }
    }
}

/// `seq`: the list of what a collection holds; `nil` for an empty one.
pub open spec fn to_seq_spec(args: Seq<Datum>) -> Result<Datum, Failure> {
    if args.len() != 1 {
        Err(wrong_arity())
    } else {
        match contents_of(args[0]) {
            Some(xs) => if xs.len() == 0 {
                Ok(Datum::Nil)
            } else {
                Ok(Datum::List(xs))
            },
            None => Err(incorrect_argument()),
        }
    }
}

/// `assoc`: a map with more bindings.
pub open spec fn assoc_spec(args: Seq<Datum>) -> Result<Datum, Failure> {
    if args.len() < 3 {
        Err(wrong_arity())
    } else if (args.len() - 1) % 2 != 0 {
        Err(Failure::ListFailure("assoc needs keys and values to pair"@))
    } else {
        match args[0] {
            Datum::HashMap(entries) => Ok(
                Datum::HashMap(assoc_all(entries, args.skip(1), (args.len() - 1) as nat)),
            ),
            _ => Err(incorrect_argument()),
        }
    }
}

/// `dissoc`: a map without some keys.
pub open spec fn dissoc_spec(args: Seq<Datum>) -> Result<Datum, Failure> {
    if args.len() == 0 {
        Err(wrong_arity())
    } else {
        match args[0] {
            Datum::HashMap(entries) => Ok(
                Datum::HashMap(dissoc_all(entries, args.skip(1), (args.len() - 1) as nat)),
            ),
            _ => Err(incorrect_argument()),
        }
    }
}

/// `get`: the value under a key, `nil` where the key is missing or the
/// map is `nil`.
pub open spec fn get_spec(args: Seq<Datum>) -> Result<Datum, Failure> {
    if args.len() != 2 {
        Err(wrong_arity())
    } else {
        match args[0] {
            Datum::Nil => Ok(Datum::Nil),
            Datum::HashMap(entries) => match lookup(entries, args[1]) {
                Some(v) => Ok(v),
                None => Ok(Datum::Nil),
            },
            _ => Err(incorrect_argument()),
        }
    }
}

/// `contains?`: whether a map has a key.
pub open spec fn does_contain_spec(args: Seq<Datum>) -> Result<Datum, Failure> {
    if args.len() != 2 {
        Err(wrong_arity())
    } else {
        match args[0] {
            Datum::HashMap(entries) => Ok(Datum::Bool(lookup(entries, args[1]) is Some)),
            _ => Err(incorrect_argument()),
        }
    }
}

/// `keys`, `vals`: the keys or the values of a map as a list; `nil` for an
/// empty map.
pub open spec fn column_spec(keys: bool, args: Seq<Datum>) -> Result<Datum, Failure> {
    if args.len() != 1 {
        Err(wrong_arity())
    } else {
        match args[0] {
            Datum::HashMap(entries) => if entries.len() / 2 == 0 {
                Ok(Datum::Nil)
            } else if keys {
                Ok(Datum::List(keys_of(entries)))
            } else {
                Ok(Datum::List(vals_of(entries)))
            },
            _ => Err(incorrect_argument()),
        }
    }
}

/// The first `n` items, last item first.
pub open spec fn reversed(xs: Seq<Datum>, n: nat) -> Seq<Datum>
    decreases n,
{
    if n == 0 || n > xs.len() {
        Seq::empty()
    } else {
        seq![xs[n - 1]] + reversed(xs, (n - 1) as nat)
    }
}

/// The entries after adding what the first `n` items stand for: a vector
/// of two is a key and a value, a map is all its entries.
pub open spec fn conj_entries(entries: Seq<Datum>, items: Seq<Datum>, n: nat) -> Result<
    Seq<Datum>,
    Failure,
>
    decreases n,
{
    if n == 0 || n > items.len() {
        Ok(entries)
    } else {
        match conj_entries(entries, items, (n - 1) as nat) {
            Ok(front) => match items[n - 1] {
                Datum::Vector(kv) => if kv.len() == 2 {
                    Ok(crate::maps::assoc(front, kv[0], kv[1]))
                } else {
                    Err(incorrect_argument())
                },
                Datum::HashMap(more) => Ok(assoc_all(front, more, (more.len() - more.len() % 2) as nat)),
                _ => Err(incorrect_argument()),
            },
            Err(e) => Err(e),
        }
    }
}

/// `conj`: a collection with more items: in front of a list, each before
/// the last; at the end of a vector; into a map or a set.
pub open spec fn conj_spec(args: Seq<Datum>) -> Result<Datum, Failure> {
    if args.len() < 2 {
        Err(wrong_arity())
    } else {
        let more = args.skip(1);
        match args[0] {
            Datum::Nil => Ok(Datum::List(more)),
            Datum::List(xs) => Ok(Datum::List(reversed(more, more.len()) + xs)),
            Datum::Vector(xs) => Ok(Datum::Vector(xs + more)),
            Datum::HashMap(entries) => match conj_entries(entries, more, more.len()) {
                Ok(all) => Ok(Datum::HashMap(all)),
                Err(e) => Err(e),
            },
            Datum::HashSet(members) => Ok(Datum::HashSet(adjoin_all(members, more, more.len()))),
            _ => Err(incorrect_argument()),
        }
    }
}

/// The texts of the first `n` arguments, one after the other; a string is
/// taken as it is, anything else in the readable style.
pub open spec fn str_text(args: Seq<Datum>, n: nat) -> Seq<char>
    decreases n,
{
    if n == 0 || n > args.len() {
        Seq::empty()
    } else {
        str_text(args, (n - 1) as nat) + (match args[n - 1] {
            Datum::String(s) => s,
            other => print(other, true),
        })
    }
}

/// `str`: the texts of the arguments joined; the empty string for a single
/// `nil`.
pub open spec fn to_str_spec(args: Seq<Datum>) -> Result<Datum, Failure> {
    if args.len() == 1 && args[0] is Nil {
        Ok(Datum::String(Seq::empty()))
    } else {
        Ok(Datum::String(str_text(args, args.len())))
    }
}

/// The texts of the first `n` arguments with a space between them.
pub open spec fn spaced(args: Seq<Datum>, n: nat, readable: bool) -> Seq<char>
    decreases n,
{
    if n == 0 || n > args.len() {
        Seq::empty()
    } else if n == 1 {
        print(args[0], readable)
    } else {
        spaced(args, (n - 1) as nat, readable) + seq![' '] + print(args[n - 1], readable)
    }
}

/// `pr-str`, `print-str`: the texts of the arguments with spaces between.
pub open spec fn spaced_spec(readable: bool, args: Seq<Datum>) -> Result<Datum, Failure> {
    Ok(Datum::String(spaced(args, args.len(), readable)))
}

/// `read-string`: the one form that a string holds, `nil` for none.
pub open spec fn read_string_spec(args: Seq<Datum>) -> Result<Datum, Failure> {
    if args.len() != 1 {
        Err(wrong_arity())
    } else {
        match args[0] {
            Datum::String(s) => match read_spec(s) {
                Ok(forms) => if forms.len() == 0 {
                    Ok(Datum::Nil)
                } else if forms.len() == 1 {
                    Ok(forms[0])
                } else {
                    Err(Failure::ListFailure("`read-string` only reads one form"@))
                },
                Err(e) => Err(crate::prelude_spec::with_source(e, s)),
            },
            _ => Err(incorrect_argument()),
        }
    }
}

/// A reader's error with the text that it is about.
pub open spec fn with_source(e: Failure, source: Seq<char>) -> Failure {
    match e {
        Failure::ExtraneousInput(_) => Failure::ExtraneousInput(source),
        Failure::ParserError(m, _) => Failure::ParserError(m, source),
        Failure::UnknownReaderError(_) => Failure::UnknownReaderError(source),
        other => other,
    }
}

} // verus!
