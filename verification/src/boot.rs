//! How an interpreter is made: its first scope, its namespace, the
//! primitives, and the definitions of the core source.
use crate::collections::{data, lemma_data_push};
use crate::errors::{EvaluationError, EvaluationResult, Failure, InterpreterError};
use crate::interpreter::item;
use crate::maps::list_with_values;
use crate::namespace::{with_space, Namespace, DEFAULT_NAME};

use crate::prelude_spec::with_source;
use crate::quasiquote::{empty_list, sym, symbol};
use crate::reader::{read_spec, read_values};
use crate::semantics::evaluate;
use crate::state::Interpreter;
use crate::value::{texts, Datum, Primitive, Value};
use crate::world::{Wish, bind, empty_frame, intern_in, resolve_symbol, World};
use vstd::prelude::*;

verus! {

/// The name of the var that holds the arguments of the command line.
pub const COMMAND_LINE_ARGS_SYMBOL: &'static str = "*command-line-args*";

/// How deep evaluation may nest in an interpreter that is made here.
pub const DEFAULT_DEPTH: usize = 512;

/// The definitions that every interpreter starts with, in the language
/// itself.
pub const CORE_SOURCE: &'static str = "\
    (defmacro! defmacro (fn* [macro-name macro-args & body] `(defmacro! ~macro-name (fn* ~macro-args ~@body))))\n\
    (defmacro defn [fn-name fn-args & body] `(def! ~fn-name (fn* ~fn-args ~@body)))\n\
    (defn load-file [f] (eval (read-string (str \"(do \" (slurp f) \" nil)\"))))\n\
    (defn not [a] (if a false true))\n\
    (defn inc [n] (+ n 1))\n\
    (defn dec [n] (- n 1))\n\
    (defmacro cond [& xs] (if (> (count xs) 0) (list 'if (first xs) (if (> (count xs) 1) (nth xs 1) (throw \"odd number of forms to cond\")) (cons 'cond (rest (rest xs))))))\n\
    ";

/// How many special forms there are.
pub open spec fn special_count() -> nat {
    16
}

/// The name of the special form at a place.
pub open spec fn special_form(i: int) -> Seq<char> {
    if i == 0 {
        "def!"@
    } else if i == 1 {
        "var"@
    } else if i == 2 {
        "let*"@
    } else if i == 3 {
        "loop*"@
    } else if i == 4 {
        "recur"@
    } else if i == 5 {
        "if"@
    } else if i == 6 {
        "do"@
    } else if i == 7 {
        "fn*"@
    } else if i == 8 {
        "quote"@
    } else if i == 9 {
        "quasiquote"@
    } else if i == 10 {
        "unquote"@
    } else if i == 11 {
        "splice-unquote"@
    } else if i == 12 {
        "defmacro!"@
    } else if i == 13 {
        "macroexpand"@
    } else if i == 14 {
        "try*"@
    } else {
        "catch*"@
    }
}

/// The name of the special form at a place.
pub fn special_form_name(i: usize) -> (r: &'static str)
    ensures
        r@ == special_form(i as int),
{
    if i == 0 {
        "def!"
    } else if i == 1 {
        "var"
    } else if i == 2 {
        "let*"
    } else if i == 3 {
        "loop*"
    } else if i == 4 {
        "recur"
    } else if i == 5 {
        "if"
    } else if i == 6 {
        "do"
    } else if i == 7 {
        "fn*"
    } else if i == 8 {
        "quote"
    } else if i == 9 {
        "quasiquote"
    } else if i == 10 {
        "unquote"
    } else if i == 11 {
        "splice-unquote"
    } else if i == 12 {
        "defmacro!"
    } else if i == 13 {
        "macroexpand"
    } else if i == 14 {
        "try*"
    } else {
        "catch*"
    }
}

/// How many primitives there are.
pub open spec fn primitive_count() -> nat {
    70
}

/// The name and the primitive at a place of the table of primitives.
pub open spec fn primitive_entry(i: int) -> (Seq<char>, Primitive) {
    if i == 0 {
        ("+"@, Primitive::Plus)
    } else if i == 1 {
        ("-"@, Primitive::Subtract)
    } else if i == 2 {
        ("*"@, Primitive::Multiply)
    } else if i == 3 {
        ("/"@, Primitive::Divide)
    } else if i == 4 {
        ("pr"@, Primitive::Pr)
    } else if i == 5 {
        ("prn"@, Primitive::Prn)
    } else if i == 6 {
        ("pr-str"@, Primitive::PrStr)
    } else if i == 7 {
        ("print"@, Primitive::Print)
    } else if i == 8 {
        ("println"@, Primitive::Println)
    } else if i == 9 {
        ("print-str"@, Primitive::PrintStr)
    } else if i == 10 {
        ("list"@, Primitive::List)
    } else if i == 11 {
        ("list?"@, Primitive::IsList)
    } else if i == 12 {
        ("empty?"@, Primitive::IsEmpty)
    } else if i == 13 {
        ("count"@, Primitive::Count)
    } else if i == 14 {
        ("<"@, Primitive::Less)
    } else if i == 15 {
        ("<="@, Primitive::LessEq)
    } else if i == 16 {
        (">"@, Primitive::Greater)
    } else if i == 17 {
        (">="@, Primitive::GreaterEq)
    } else if i == 18 {
        ("="@, Primitive::Equal)
    } else if i == 19 {
        ("read-string"@, Primitive::ReadString)
    } else if i == 20 {
        ("spit"@, Primitive::Spit)
    } else if i == 21 {
        ("slurp"@, Primitive::Slurp)
    } else if i == 22 {
        ("eval"@, Primitive::Eval)
    } else if i == 23 {
        ("str"@, Primitive::Str)
    } else if i == 24 {
        ("atom"@, Primitive::Atom)
    } else if i == 25 {
        ("atom?"@, Primitive::IsAtom)
    } else if i == 26 {
        ("deref"@, Primitive::Deref)
    } else if i == 27 {
        ("reset!"@, Primitive::ResetAtom)
    } else if i == 28 {
        ("swap!"@, Primitive::SwapAtom)
    } else if i == 29 {
        ("cons"@, Primitive::Cons)
    } else if i == 30 {
        ("concat"@, Primitive::Concat)
    } else if i == 31 {
        ("vec"@, Primitive::Vec)
    } else if i == 32 {
        ("nth"@, Primitive::Nth)
    } else if i == 33 {
        ("first"@, Primitive::First)
    } else if i == 34 {
        ("rest"@, Primitive::Rest)
    } else if i == 35 {
        ("ex-info"@, Primitive::ExInfo)
    } else if i == 36 {
        ("throw"@, Primitive::Throw)
    } else if i == 37 {
        ("apply"@, Primitive::Apply)
    } else if i == 38 {
        ("map"@, Primitive::MapOver)
    } else if i == 39 {
        ("nil?"@, Primitive::IsNil)
    } else if i == 40 {
        ("true?"@, Primitive::IsTrue)
    } else if i == 41 {
        ("false?"@, Primitive::IsFalse)
    } else if i == 42 {
        ("symbol?"@, Primitive::IsSymbol)
    } else if i == 43 {
        ("symbol"@, Primitive::Symbol)
    } else if i == 44 {
        ("keyword"@, Primitive::Keyword)
    } else if i == 45 {
        ("keyword?"@, Primitive::IsKeyword)
    } else if i == 46 {
        ("vector"@, Primitive::Vector)
    } else if i == 47 {
        ("vector?"@, Primitive::IsVector)
    } else if i == 48 {
        ("sequential?"@, Primitive::IsSequential)
    } else if i == 49 {
        ("hash-map"@, Primitive::HashMap)
    } else if i == 50 {
        ("map?"@, Primitive::IsMap)
    } else if i == 51 {
        ("set"@, Primitive::ToSet)
    } else if i == 52 {
        ("set?"@, Primitive::IsSet)
    } else if i == 53 {
        ("assoc"@, Primitive::Assoc)
    } else if i == 54 {
        ("dissoc"@, Primitive::Dissoc)
    } else if i == 55 {
        ("get"@, Primitive::Get)
    } else if i == 56 {
        ("contains?"@, Primitive::Contains)
    } else if i == 57 {
        ("keys"@, Primitive::Keys)
    } else if i == 58 {
        ("vals"@, Primitive::Vals)
    } else if i == 59 {
        ("last"@, Primitive::Last)
    } else if i == 60 {
        ("string?"@, Primitive::IsString)
    } else if i == 61 {
        ("number?"@, Primitive::IsNumber)
    } else if i == 62 {
        ("fn?"@, Primitive::IsFn)
    } else if i == 63 {
        ("conj"@, Primitive::Conj)
    } else if i == 64 {
        ("macro?"@, Primitive::IsMacro)
    } else if i == 65 {
        ("time-ms"@, Primitive::TimeMs)
    } else if i == 66 {
        ("seq"@, Primitive::ToSeq)
    } else if i == 67 {
        ("readline"@, Primitive::Readline)
    } else if i == 68 {
        ("meta"@, Primitive::Meta)
    } else {
        ("with-meta"@, Primitive::WithMeta)
    }
}

/// The name and the primitive at a place of the table of primitives.
pub fn primitive_binding(i: usize) -> (r: (&'static str, Primitive))
    ensures
        r.0@ == primitive_entry(i as int).0,
        r.1 == primitive_entry(i as int).1,
{
    if i == 0 {
        ("+", Primitive::Plus)
    } else if i == 1 {
        ("-", Primitive::Subtract)
    } else if i == 2 {
        ("*", Primitive::Multiply)
    } else if i == 3 {
        ("/", Primitive::Divide)
    } else if i == 4 {
        ("pr", Primitive::Pr)
    } else if i == 5 {
        ("prn", Primitive::Prn)
    } else if i == 6 {
        ("pr-str", Primitive::PrStr)
    } else if i == 7 {
        ("print", Primitive::Print)
    } else if i == 8 {
        ("println", Primitive::Println)
    } else if i == 9 {
        ("print-str", Primitive::PrintStr)
    } else if i == 10 {
        ("list", Primitive::List)
    } else if i == 11 {
        ("list?", Primitive::IsList)
    } else if i == 12 {
        ("empty?", Primitive::IsEmpty)
    } else if i == 13 {
        ("count", Primitive::Count)
    } else if i == 14 {
        ("<", Primitive::Less)
    } else if i == 15 {
        ("<=", Primitive::LessEq)
    } else if i == 16 {
        (">", Primitive::Greater)
    } else if i == 17 {
        (">=", Primitive::GreaterEq)
    } else if i == 18 {
        ("=", Primitive::Equal)
    } else if i == 19 {
        ("read-string", Primitive::ReadString)
    } else if i == 20 {
        ("spit", Primitive::Spit)
    } else if i == 21 {
        ("slurp", Primitive::Slurp)
    } else if i == 22 {
        ("eval", Primitive::Eval)
    } else if i == 23 {
        ("str", Primitive::Str)
    } else if i == 24 {
        ("atom", Primitive::Atom)
    } else if i == 25 {
        ("atom?", Primitive::IsAtom)
    } else if i == 26 {
        ("deref", Primitive::Deref)
    } else if i == 27 {
        ("reset!", Primitive::ResetAtom)
    } else if i == 28 {
        ("swap!", Primitive::SwapAtom)
    } else if i == 29 {
        ("cons", Primitive::Cons)
    } else if i == 30 {
        ("concat", Primitive::Concat)
    } else if i == 31 {
        ("vec", Primitive::Vec)
    } else if i == 32 {
        ("nth", Primitive::Nth)
    } else if i == 33 {
        ("first", Primitive::First)
    } else if i == 34 {
        ("rest", Primitive::Rest)
    } else if i == 35 {
        ("ex-info", Primitive::ExInfo)
    } else if i == 36 {
        ("throw", Primitive::Throw)
    } else if i == 37 {
        ("apply", Primitive::Apply)
    } else if i == 38 {
        ("map", Primitive::MapOver)
    } else if i == 39 {
        ("nil?", Primitive::IsNil)
    } else if i == 40 {
        ("true?", Primitive::IsTrue)
    } else if i == 41 {
        ("false?", Primitive::IsFalse)
    } else if i == 42 {
        ("symbol?", Primitive::IsSymbol)
    } else if i == 43 {
        ("symbol", Primitive::Symbol)
    } else if i == 44 {
        ("keyword", Primitive::Keyword)
    } else if i == 45 {
        ("keyword?", Primitive::IsKeyword)
    } else if i == 46 {
        ("vector", Primitive::Vector)
    } else if i == 47 {
        ("vector?", Primitive::IsVector)
    } else if i == 48 {
        ("sequential?", Primitive::IsSequential)
    } else if i == 49 {
        ("hash-map", Primitive::HashMap)
    } else if i == 50 {
        ("map?", Primitive::IsMap)
    } else if i == 51 {
        ("set", Primitive::ToSet)
    } else if i == 52 {
        ("set?", Primitive::IsSet)
    } else if i == 53 {
        ("assoc", Primitive::Assoc)
    } else if i == 54 {
        ("dissoc", Primitive::Dissoc)
    } else if i == 55 {
        ("get", Primitive::Get)
    } else if i == 56 {
        ("contains?", Primitive::Contains)
    } else if i == 57 {
        ("keys", Primitive::Keys)
    } else if i == 58 {
        ("vals", Primitive::Vals)
    } else if i == 59 {
        ("last", Primitive::Last)
    } else if i == 60 {
        ("string?", Primitive::IsString)
    } else if i == 61 {
        ("number?", Primitive::IsNumber)
    } else if i == 62 {
        ("fn?", Primitive::IsFn)
    } else if i == 63 {
        ("conj", Primitive::Conj)
    } else if i == 64 {
        ("macro?", Primitive::IsMacro)
    } else if i == 65 {
        ("time-ms", Primitive::TimeMs)
    } else if i == 66 {
        ("seq", Primitive::ToSeq)
    } else if i == 67 {
        ("readline", Primitive::Readline)
    } else if i == 68 {
        ("meta", Primitive::Meta)
    } else {
        ("with-meta", Primitive::WithMeta)
    }
}

/// The state with the first `n` special forms bound to themselves in the
/// innermost scope.
pub open spec fn with_special_forms(w: World, n: nat) -> World
    decreases n,
{
    if n == 0 {
        w
    } else {
        bind(
            with_special_forms(w, (n - 1) as nat),
            special_form(n - 1),
            sym(special_form(n - 1)),
        )
    }
}

/// The state with the first `n` primitives interned in the default
/// namespace.
pub open spec fn with_primitives(w: World, n: nat) -> World
    decreases n,
{
    if n == 0 {
        w
    } else {
        intern_in(
            with_primitives(w, (n - 1) as nat),
            DEFAULT_NAME@,
            primitive_entry(n - 1).0,
            Some(Datum::Primitive(primitive_entry(n - 1).1)),
        ).0
    }
}

/// The state of an interpreter before the core source is evaluated: a
/// scope that binds each special form to itself, the default namespace with
/// an empty list of command line arguments, and the primitives.
pub open spec fn initial_world() -> World {
    let bare = World {
        current_namespace: DEFAULT_NAME@,
        namespaces: Seq::empty(),
        vars: Seq::empty(),
        atoms: Seq::empty(),
        scopes: Seq::empty(),
        symbol_index: None,
        output: Seq::empty(),
        files: empty_frame(),
        written: empty_frame(),
        lines: Seq::empty(),
        clock: 0,
        live: false,
        ended: false,
        moments: Seq::empty(),
        answers: Seq::empty(),
        wanted: Wish::Nothing,
    };
    let scoped = with_special_forms(bare, special_count());
    let spaced = with_space(scoped, DEFAULT_NAME@);
    let argued = intern_in(
        spaced,
        DEFAULT_NAME@,
        COMMAND_LINE_ARGS_SYMBOL@,
        Some(Datum::List(Seq::empty())),
    ).0;
    with_primitives(argued, primitive_count())
}

/// The state after evaluating, in order, the forms from place `i` on, or
/// the state at the first error and that error.
pub open spec fn evaluate_each(w: World, forms: Seq<Datum>, i: int, fuel: nat) -> (
    World,
    Option<Failure>,
)
    decreases forms.len() - i,
{
    if i < 0 || i >= forms.len() {
        (w, None)
    } else {
        let o = evaluate(w, forms[i], fuel);
        match o.result {
            Ok(_) => evaluate_each(o.world, forms, i + 1, fuel),
            Err(e) => (o.world, Some(e)),
        }
    }
}

/// The state after reading a text and evaluating its forms in order, or
/// the first error of reading or evaluating.
pub open spec fn evaluate_source(w: World, source: Seq<char>, fuel: nat) -> (World, Option<Failure>) {
    match read_spec(source) {
        Ok(forms) => evaluate_each(w, forms, 0, fuel),
        Err(e) => (w, Some(with_source(e, source))),
    }
}

/// Interns the primitives in the default namespace.
pub fn register(interpreter: &mut Interpreter)
    ensures
        final(interpreter)@ == with_primitives(old(interpreter)@, primitive_count()),
        final(interpreter).depth == old(interpreter).depth,
{
    let mut i: usize = 0;
    while i < 70
        invariant
            0 <= i <= 70,
            interpreter.depth == old(interpreter).depth,
            interpreter@ == with_primitives(old(interpreter)@, i as nat),
        decreases 70 - i,
    {
        let (name, p) = primitive_binding(i);
        let _ = interpreter.intern_in_namespace(DEFAULT_NAME, name, Some(Value::Primitive(p)));
        i = i + 1;
    }
}

/// Reads a text and evaluates its forms in order; stops at the first
/// error.
pub fn evaluate_from_string(interpreter: &mut Interpreter, source: &str) -> (r: Result<
    (),
    EvaluationError,
>)
    ensures
        final(interpreter)@ == evaluate_source(
            old(interpreter)@,
            source@,
            old(interpreter).depth as nat,
        ).0,
        match r {
            Ok(_) => evaluate_source(old(interpreter)@, source@, old(interpreter).depth as nat).1
                is None,
            Err(e) => evaluate_source(old(interpreter)@, source@, old(interpreter).depth as nat).1
                == Some(e@),
        },
        final(interpreter).depth == old(interpreter).depth,
{
    let forms = match read_values(source) {
        Ok(forms) => forms,
        Err(e) => {
            return Err(EvaluationError::ReaderError(e, String::from_str(source)));
        },
    };
    let ghost w = interpreter@;
    let ghost fuel = interpreter.depth as nat;
    let mut i: usize = 0;
    while i < forms.len()
        invariant
            0 <= i <= forms.len(),
            w == old(interpreter)@,
            fuel == old(interpreter).depth,
            interpreter.depth == old(interpreter).depth,
            read_spec(source@) == Ok::<Seq<Datum>, Failure>(data(forms@)),
            evaluate_each(w, data(forms@), 0, fuel) == evaluate_each(
                interpreter@,
                data(forms@),
                i as int,
                fuel,
            ),
        decreases forms.len() - i,
    {
        match interpreter.evaluate(item(&forms, i)) {
            Ok(_) => {},
            Err(e) => {
                return Err(e);
            },
        }
        i = i + 1;
    }
    Ok(())
}

impl Interpreter {
    /// An interpreter with its first scope, the default namespace and the
    /// primitives; the core source is not evaluated yet.
    pub fn new() -> (r: Interpreter)
        ensures
            r@ == initial_world(),
            r.depth == DEFAULT_DEPTH,
            r.wf(),
    {
        proof {
            crate::tidy::law_states_are_tidy(Seq::empty(), initial_world(), Datum::Nil, 0);
        }
        let mut interpreter = Interpreter::bare(DEFAULT_NAME, DEFAULT_DEPTH);
        let ghost bare = interpreter@;
        let mut i: usize = 0;
        while i < 16
            invariant
                0 <= i <= 16,
                interpreter.depth == DEFAULT_DEPTH,
                interpreter@.current_namespace == DEFAULT_NAME@,
                interpreter@ == with_special_forms(bare, i as nat),
            decreases 16 - i,
        {
            let form = special_form_name(i);
            interpreter.insert_value_in_current_scope(form, symbol(form));
            i = i + 1;
        }
        let ghost scoped = interpreter@;
        assert(scoped == with_special_forms(bare, special_count()));
        interpreter.load_namespace(Namespace::new(DEFAULT_NAME));
        let ghost spaced = interpreter@;
        assert(spaced == with_space(scoped, DEFAULT_NAME@));
        assert(spaced.current_namespace == DEFAULT_NAME@);
        let _ = interpreter.intern_var(COMMAND_LINE_ARGS_SYMBOL, empty_list());
        let ghost argued = interpreter@;
        assert(argued == intern_in(
            spaced,
            DEFAULT_NAME@,
            COMMAND_LINE_ARGS_SYMBOL@,
            Some(Datum::List(Seq::empty())),
        ).0);
        register(&mut interpreter);
        interpreter
    }

    /// Store `args` in the var that holds the arguments of the command
    /// line.
    pub fn intern_args(&mut self, args: Vec<String>)
        ensures
            final(self)@ == intern_in(
                old(self)@,
                old(self)@.current_namespace,
                COMMAND_LINE_ARGS_SYMBOL@,
                Some(Datum::List(strings(texts(args@)))),
            ).0,
            final(self).depth == old(self).depth,
    {
        let mut values: Vec<Value> = Vec::new();
        let mut i: usize = 0;
        while i < args.len()
            invariant
                0 <= i <= args.len(),
                data(values@).len() == i,
                forall|k: int| 0 <= k < i ==> #[trigger] data(values@)[k] == Datum::String(args@[k]@),
            decreases args.len() - i,
        {
            let v = Value::String(args[i].clone());
            proof {
                lemma_data_push(values@, v);
            }
            values.push(v);
            i = i + 1;
        }
        assert(data(values@) =~= strings(texts(args@)));
        let _ = self.intern_var(COMMAND_LINE_ARGS_SYMBOL, list_with_values(values));
    }

    /// Read the interned command line argument at position `n`.
    pub fn command_line_arg(&self, n: usize) -> (r: EvaluationResult<String>)
        ensures
            match r {
                Ok(s) => command_line_arg_spec(self@, n) == Ok::<Seq<char>, Failure>(s@),
                Err(e) => command_line_arg_spec(self@, n) == Err::<Seq<char>, Failure>(e@),
            },
    {
        let none: Option<String> = None;
        match self.resolve_symbol(COMMAND_LINE_ARGS_SYMBOL, &none) {
            Ok(Value::List(args)) => {
                let args = crate::collections::list_to_vec(&args);
                if n < args.len() {
                    match item(&args, n) {
                        Value::String(arg) => Ok(arg.clone()),
                        other => Err(
                            EvaluationError::WrongType {
                                expected: String::from_str("String"),
                                realized: other.clone(),
                            },
                        ),
                    }
                } else {
                    Err(
                        EvaluationError::Interpreter(
                            InterpreterError::MissingCommandLineArg(n, args.len()),
                        ),
                    )
                }
            },
            Ok(other) => Err(
                EvaluationError::WrongType { expected: String::from_str("List"), realized: other },
            ),
            Err(e) => Err(e),
        }
    }
}

impl Default for Interpreter {
    /// An interpreter with its first scope, the default namespace and the
    /// primitives.
    fn default() -> (r: Interpreter)
        ensures
            r@ == initial_world(),
            r.depth == DEFAULT_DEPTH,
    {
        Interpreter::new()
    }
}

/// The strings of a run of texts, as values.
pub open spec fn strings(args: Seq<Seq<char>>) -> Seq<Datum> {
    Seq::new(args.len(), |i: int| Datum::String(args[i]))
}

/// The command line argument at a position: the var of the arguments must
/// hold a list, and the list a string at the position.
pub open spec fn command_line_arg_spec(w: World, n: usize) -> Result<Seq<char>, Failure> {
    match resolve_symbol(w, COMMAND_LINE_ARGS_SYMBOL@, None) {
        Ok(Datum::List(args)) => if n < args.len() {
            match args[n as int] {
                Datum::String(s) => Ok(s),
                other => Err(Failure::WrongType("String"@, other)),
            }
        } else {
            Err(Failure::MissingCommandLineArg(n, args.len() as usize))
        },
        Ok(other) => Err(Failure::WrongType("List"@, other)),
        Err(e) => Err(e),
    }
}

/// Builds interpreters.
pub struct InterpreterBuilder {
    /// Points to a source file for the core definitions.
    pub core_file_path: Option<String>,
}

impl Default for InterpreterBuilder {
    /// A builder that uses the core source that comes with the library.
    fn default() -> (r: InterpreterBuilder)
        ensures
            r.core_file_path is None,
    {
        InterpreterBuilder::new()
    }
}

impl InterpreterBuilder {
    /// A builder that uses the core source that comes with the library.
    pub fn new() -> (r: InterpreterBuilder)
        ensures
            r.core_file_path is None,
    {
        InterpreterBuilder { core_file_path: None }
    }

    /// Makes the builder use the source file at a path for the core
    /// definitions.
    pub fn with_core_file_path(&mut self, core_file_path: String)
        ensures
            final(self).core_file_path == Some(core_file_path),
    {
        self.core_file_path = Some(core_file_path);
    }

    /// An interpreter with the definitions of the core source that comes
    /// with the library.
    pub fn build_with_default_source(self) -> (r: Result<Interpreter, EvaluationError>)
        ensures
            match r {
                Ok(interpreter) => evaluate_source(
                    initial_world(),
                    CORE_SOURCE@,
                    DEFAULT_DEPTH as nat,
                ) == (interpreter@, None::<Failure>) && interpreter.depth == DEFAULT_DEPTH,
                Err(e) => evaluate_source(initial_world(), CORE_SOURCE@, DEFAULT_DEPTH as nat).1
                    == Some(e@),
            },
            r matches Ok(interpreter) ==> interpreter.wf(),
    {
        self.build_with_core_source(CORE_SOURCE)
    }

    /// An interpreter with the definitions of the given core source.
    ///
    /// Fails with the first error of reading or evaluating the source.
    pub fn build_with_core_source(self, source: &str) -> (r: Result<Interpreter, EvaluationError>)
        ensures
            match r {
                Ok(interpreter) => evaluate_source(initial_world(), source@, DEFAULT_DEPTH as nat)
                    == (interpreter@, None::<Failure>) && interpreter.depth == DEFAULT_DEPTH,
                Err(e) => evaluate_source(initial_world(), source@, DEFAULT_DEPTH as nat).1
                    == Some(e@),
            },
            r matches Ok(interpreter) ==> interpreter.wf(),
    {
        proof {
            crate::tidy::law_states_are_tidy(source@, initial_world(), Datum::Nil, DEFAULT_DEPTH as nat);
        }
        let mut interpreter = Interpreter::new();
        match evaluate_from_string(&mut interpreter, source) {
            Ok(_) => Ok(interpreter),
            Err(e) => Err(e),
        }
    }
}

} // verus!
