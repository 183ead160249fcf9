//! The values of the language, and the mathematical terms that stand for
//! them in contracts.
use crate::collections::{
    data, list_clone, list_items, vector_clone, vector_items, vector_new, PersistentList,
    PersistentVector,
};
use vstd::prelude::*;

verus! {

/// The procedures that the host implements.
#[derive(Clone, Copy, PartialEq, Eq, Structural, Debug)]
pub enum Primitive {
    Plus,
    Subtract,
    Multiply,
    Divide,
    Pr,
    Prn,
    PrStr,
    Print,
    Println,
    PrintStr,
    List,
    IsList,
    IsEmpty,
    Count,
    Less,
    LessEq,
    Greater,
    GreaterEq,
    Equal,
    ReadString,
    Spit,
    Slurp,
    Eval,
    Str,
    Atom,
    IsAtom,
    Deref,
    ResetAtom,
    SwapAtom,
    Cons,
    Concat,
    Vec,
    Nth,
    First,
    Rest,
    ExInfo,
    Throw,
    Apply,
    MapOver,
    IsNil,
    IsTrue,
    IsFalse,
    IsSymbol,
    Symbol,
    Keyword,
    IsKeyword,
    Vector,
    IsVector,
    IsSequential,
    HashMap,
    IsMap,
    ToSet,
    IsSet,
    Assoc,
    Dissoc,
    Get,
    Contains,
    Keys,
    Vals,
    Last,
    IsString,
    IsNumber,
    IsFn,
    Conj,
    IsMacro,
    TimeMs,
    ToSeq,
    Readline,
    Meta,
    WithMeta,
    /// A procedure of the host's own, by the number that the host gave it:
    /// a call stops the evaluation until the host has answered.
    Host(usize),
}

/// The term that stands for an analyzed function: its body, the number of
/// its fixed parameters, the nesting level it was analyzed at, and whether a
/// last parameter takes the remaining operands.
pub struct Lambda {
    pub body: Seq<Datum>,
    pub arity: usize,
    pub level: usize,
    pub variadic: bool,
}

/// The mathematical term that stands for a value.
///
/// A map is a run of keys and values by turns, in insertion order; a set is
/// a run of members. Vars and atoms are the numbers of their cells.
pub enum Datum {
    Nil,
    Bool(bool),
    Number(i64),
    String(Seq<char>),
    Keyword(Seq<char>, Option<Seq<char>>),
    Symbol(Seq<char>, Option<Seq<char>>),
    List(Seq<Datum>),
    Vector(Seq<Datum>),
    HashMap(Seq<Datum>),
    HashSet(Seq<Datum>),
    Fn(Lambda),
    FnWithCaptures(Lambda, Seq<Seq<char>>, Seq<Datum>),
    Primitive(Primitive),
    Var(usize, Seq<char>, Seq<char>),
    Recur(Seq<Datum>),
    Atom(usize),
    Macro(Lambda),
    Exception(Seq<char>, Box<Datum>, bool),
}

/// An analyzed function.
pub struct FnImpl {
    pub body: PersistentList,
    pub arity: usize,
    pub level: usize,
    pub variadic: bool,
}

/// An analyzed function together with the names it captures.
///
/// `values` is empty until the captures are resolved; from then on it holds
/// one value for each name, in the order of `names`.
pub struct FnWithCapturesImpl {
    pub f: FnImpl,
    pub names: Vec<String>,
    pub values: PersistentVector,
}

/// A named cell of a namespace.
pub struct VarImpl {
    pub cell: usize,
    pub namespace: String,
    pub identifier: String,
}

/// A structured error value of the language.
pub struct ExceptionImpl {
    pub message: String,
    pub data: Box<Value>,
    pub thrown: bool,
}

/// A map from keys to values, kept in insertion order: `entries` holds a
/// key, its value, the next key, its value, and so on.
pub struct PersistentMap {
    pub entries: PersistentVector,
}

/// A set of values, kept in insertion order.
pub struct PersistentSet {
    pub members: PersistentVector,
}

impl PersistentMap {
    /// The map without entries.
    pub fn new() -> (m: PersistentMap)
        ensures
            vector_items(m.entries) == Seq::<Datum>::empty(),
    {
        PersistentMap { entries: vector_new() }
    }
}

impl PersistentSet {
    /// The set without members.
    pub fn new() -> (s: PersistentSet)
        ensures
            vector_items(s.members) == Seq::<Datum>::empty(),
    {
        PersistentSet { members: vector_new() }
    }
}

/// A value of the language.
pub enum Value {
    Nil,
    Bool(bool),
    Number(i64),
    String(String),
    Keyword(String, Option<String>),
    Symbol(String, Option<String>),
    List(PersistentList),
    Vector(PersistentVector),
    HashMap(PersistentMap),
    HashSet(PersistentSet),
    Fn(FnImpl),
    FnWithCaptures(FnWithCapturesImpl),
    Primitive(Primitive),
    Var(VarImpl),
    Recur(PersistentVector),
    Atom(usize),
    Macro(FnImpl),
    Exception(ExceptionImpl),
}

/// The characters of an optional string.
pub open spec fn opt_text(s: Option<String>) -> Option<Seq<char>> {
    match s {
        Some(t) => Some(t@),
        None => None,
    }
}

/// The characters of each string of a run.
pub open spec fn texts(names: Seq<String>) -> Seq<Seq<char>> {
    names.map_values(|s: String| s@)
}

impl View for FnImpl {
    type V = Lambda;

    open spec fn view(&self) -> Lambda {
        Lambda {
            body: list_items(self.body),
            arity: self.arity,
            level: self.level,
            variadic: self.variadic,
        }
    }
}

impl Value {
    /// The term that stands for this value.
    pub open spec fn term(&self) -> Datum
        decreases self,
    {
        match self {
            Value::Nil => Datum::Nil,
            Value::Bool(b) => Datum::Bool(*b),
            Value::Number(n) => Datum::Number(*n),
            Value::String(s) => Datum::String(s@),
            Value::Keyword(id, ns) => Datum::Keyword(id@, opt_text(*ns)),
            Value::Symbol(id, ns) => Datum::Symbol(id@, opt_text(*ns)),
            Value::List(l) => Datum::List(list_items(*l)),
            Value::Vector(v) => Datum::Vector(vector_items(*v)),
            Value::HashMap(m) => Datum::HashMap(vector_items(m.entries)),
            Value::HashSet(s) => Datum::HashSet(vector_items(s.members)),
            Value::Fn(f) => Datum::Fn(f@),
            Value::FnWithCaptures(c) => Datum::FnWithCaptures(
                c.f@,
                texts(c.names@),
                vector_items(c.values),
            ),
            Value::Primitive(p) => Datum::Primitive(*p),
            Value::Var(v) => Datum::Var(v.cell, v.namespace@, v.identifier@),
            Value::Recur(v) => Datum::Recur(vector_items(*v)),
            Value::Atom(cell) => Datum::Atom(*cell),
            Value::Macro(f) => Datum::Macro(f@),
            Value::Exception(e) => Datum::Exception(e.message@, Box::new(e.data.term()), e.thrown),
        }
    }
}

impl View for Value {
    type V = Datum;

    open spec fn view(&self) -> Datum {
        self.term()
    }
}

/// A copy of an optional string.
pub fn clone_opt_text(s: &Option<String>) -> (r: Option<String>)
    ensures
        opt_text(r) == opt_text(*s),
{
    match s {
        Some(t) => Some(t.clone()),
        None => None,
    }
}

/// The characters of a run of strings with one more string.
pub proof fn lemma_texts_push(names: Seq<String>, name: String)
    ensures
        texts(names.push(name)) == texts(names).push(name@),
{
    assert(texts(names.push(name)) =~= texts(names).push(name@));
}

/// A copy of a run of strings.
pub fn clone_texts(names: &Vec<String>) -> (r: Vec<String>)
    ensures
        texts(r@) == texts(names@),
{
    let mut out: Vec<String> = Vec::new();
    let mut i: usize = 0;
    while i < names.len()
        invariant
            0 <= i <= names.len(),
            texts(out@) == texts(names@.take(i as int)),
        decreases names.len() - i,
    {
        let ghost before = out@;
        let name = names[i].clone();
        out.push(name);
        proof {
            lemma_texts_push(before, name);
            lemma_texts_push(names@.take(i as int), names@[i as int]);
            assert(names@.take(i + 1) =~= names@.take(i as int).push(names@[i as int]));
        }
        i = i + 1;
    }
    assert(names@.take(names.len() as int) =~= names@);
    out
}

impl FnImpl {
    /// A copy that shares the body.
    pub fn duplicate(&self) -> (r: FnImpl)
        ensures
            r@ == self@,
    {
        FnImpl {
            body: list_clone(&self.body),
            arity: self.arity,
            level: self.level,
            variadic: self.variadic,
        }
    }
}

impl Clone for Value {
    /// A copy of the value; it has the same view.
    fn clone(&self) -> (r: Value)
        ensures
            r@ == self@,
        decreases self,
    {
        match self {
            Value::Nil => Value::Nil,
            Value::Bool(b) => Value::Bool(*b),
            Value::Number(n) => Value::Number(*n),
            Value::String(s) => Value::String(s.clone()),
            Value::Keyword(id, ns) => Value::Keyword(id.clone(), clone_opt_text(ns)),
            Value::Symbol(id, ns) => Value::Symbol(id.clone(), clone_opt_text(ns)),
            Value::List(l) => Value::List(list_clone(l)),
            Value::Vector(v) => Value::Vector(vector_clone(v)),
            Value::HashMap(m) => Value::HashMap(
                PersistentMap { entries: vector_clone(&m.entries) },
            ),
            Value::HashSet(s) => Value::HashSet(PersistentSet { members: vector_clone(&s.members) }),
            Value::Fn(f) => Value::Fn(f.duplicate()),
            Value::FnWithCaptures(c) => Value::FnWithCaptures(
                FnWithCapturesImpl {
                    f: c.f.duplicate(),
                    names: clone_texts(&c.names),
                    values: vector_clone(&c.values),
                },
            ),
            Value::Primitive(p) => Value::Primitive(*p),
            Value::Var(v) => Value::Var(
                VarImpl {
                    cell: v.cell,
                    namespace: v.namespace.clone(),
                    identifier: v.identifier.clone(),
                },
            ),
            Value::Recur(v) => Value::Recur(vector_clone(v)),
            Value::Atom(cell) => Value::Atom(*cell),
            Value::Macro(f) => Value::Macro(f.duplicate()),
            Value::Exception(e) => Value::Exception(
                ExceptionImpl {
                    message: e.message.clone(),
                    data: Box::new((*e.data).clone()),
                    thrown: e.thrown,
                },
            ),
        }
    }
}

} // verus!
