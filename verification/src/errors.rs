//! The errors of reading and evaluating, the terms that stand for them in
//! contracts, and their texts.
use crate::collections::{vector_items, PersistentVector};
use crate::printer::{print, write_value};
use crate::text::{digits, push_digits, push_str, string_of};
use crate::value::{Datum, Value};
use vstd::prelude::*;

verus! {

/// Why text could not be read.
#[derive(Debug)]
pub enum ReaderError {
    /// Forms were read, but text was left over.
    ExtraneousInput,
    /// The text is malformed; the message says where and how.
    ParserError(String),
    /// The reader failed for another reason.
    Unknown,
}

/// Why a symbol did not resolve.
pub enum SymbolEvaluationError {
    /// The var (first) is not in the namespace (second).
    MissingVar(String, String),
    UnableToResolveSymbolToValue(String),
}

/// Why a list could not be evaluated.
pub enum ListEvaluationError {
    CannotInvoke(Value),
    Failure(String),
    QuasiquoteError(String),
    MissingCapturedValue(String),
}

/// Why a primitive failed.
pub enum PrimitiveEvaluationError {
    Failure(String),
}

/// Why the interpreter itself failed.
pub enum InterpreterError {
    /// The argument at the position (first) was asked for, but only so many
    /// (second) were supplied.
    MissingCommandLineArg(usize, usize),
    MissingNamespace(String),
    SystemTimeError(String),
    IOError(String),
    /// Evaluation went deeper, or looped longer, than the interpreter allows.
    BudgetSpent,
}

/// Why a special form is malformed.
pub enum SyntaxError {
    BindingsInLetMustBePaired(PersistentVector),
    MissingForms,
    LexicalBindingsMustBeVector(Value),
    NamesInLetMustNotBeNamespaced(Value),
    NamesInLetMustBeSymbols(Value),
}

/// Why a form could not be evaluated.
#[allow(inconsistent_fields)]
pub enum EvaluationError {
    WrongType { expected: String, realized: Value },
    WrongArity { expected: usize, realized: usize },
    CannotDerefUnboundVar(Value),
    Symbol(SymbolEvaluationError),
    List(ListEvaluationError),
    Syntax(SyntaxError),
    Primitive(PrimitiveEvaluationError),
    Interpreter(InterpreterError),
    /// The text (second) could not be read.
    ReaderError(ReaderError, String),
}

pub type EvaluationResult<T> = Result<T, EvaluationError>;

/// The term that stands for an error of evaluation.
pub enum Failure {
    WrongType(Seq<char>, Datum),
    WrongArity(usize, usize),
    CannotDerefUnboundVar(Datum),
    MissingVar(Seq<char>, Seq<char>),
    UnableToResolveSymbolToValue(Seq<char>),
    CannotInvoke(Datum),
    ListFailure(Seq<char>),
    QuasiquoteError(Seq<char>),
    MissingCapturedValue(Seq<char>),
    BindingsInLetMustBePaired(Seq<Datum>),
    MissingForms,
    LexicalBindingsMustBeVector(Datum),
    NamesInLetMustNotBeNamespaced(Datum),
    NamesInLetMustBeSymbols(Datum),
    PrimitiveFailure(Seq<char>),
    MissingCommandLineArg(usize, usize),
    MissingNamespace(Seq<char>),
    SystemTimeError(Seq<char>),
    IOError(Seq<char>),
    BudgetSpent,
    ExtraneousInput(Seq<char>),
    ParserError(Seq<char>, Seq<char>),
    UnknownReaderError(Seq<char>),
}

impl View for ReaderError {
    type V = Failure;

    /// As an error of evaluation that has no source text to show.
    open spec fn view(&self) -> Failure {
        reader_failure(*self, Seq::empty())
    }
}

/// The term for a reader's error on the given source text.
pub open spec fn reader_failure(e: ReaderError, source: Seq<char>) -> Failure {
    match e {
        ReaderError::ExtraneousInput => Failure::ExtraneousInput(source),
        ReaderError::ParserError(m) => Failure::ParserError(m@, source),
        ReaderError::Unknown => Failure::UnknownReaderError(source),
    }
}

impl View for EvaluationError {
    type V = Failure;

    open spec fn view(&self) -> Failure {
        match self {
            EvaluationError::WrongType { expected, realized } => Failure::WrongType(
                expected@,
                realized@,
            ),
            EvaluationError::WrongArity { expected, realized } => Failure::WrongArity(
                *expected,
                *realized,
            ),
            EvaluationError::CannotDerefUnboundVar(v) => Failure::CannotDerefUnboundVar(v@),
            EvaluationError::Symbol(SymbolEvaluationError::MissingVar(id, ns)) => {
                Failure::MissingVar(id@, ns@)
            },
            EvaluationError::Symbol(SymbolEvaluationError::UnableToResolveSymbolToValue(id)) => {
                Failure::UnableToResolveSymbolToValue(id@)
            },
            EvaluationError::List(ListEvaluationError::CannotInvoke(v)) => Failure::CannotInvoke(
                v@,
            ),
            EvaluationError::List(ListEvaluationError::Failure(m)) => Failure::ListFailure(m@),
            EvaluationError::List(ListEvaluationError::QuasiquoteError(m)) => {
                Failure::QuasiquoteError(m@)
            },
            EvaluationError::List(ListEvaluationError::MissingCapturedValue(id)) => {
                Failure::MissingCapturedValue(id@)
            },
            EvaluationError::Syntax(SyntaxError::BindingsInLetMustBePaired(v)) => {
                Failure::BindingsInLetMustBePaired(vector_items(*v))
            },
            EvaluationError::Syntax(SyntaxError::MissingForms) => Failure::MissingForms,
            EvaluationError::Syntax(SyntaxError::LexicalBindingsMustBeVector(v)) => {
                Failure::LexicalBindingsMustBeVector(v@)
            },
            EvaluationError::Syntax(SyntaxError::NamesInLetMustNotBeNamespaced(v)) => {
                Failure::NamesInLetMustNotBeNamespaced(v@)
            },
            EvaluationError::Syntax(SyntaxError::NamesInLetMustBeSymbols(v)) => {
                Failure::NamesInLetMustBeSymbols(v@)
            },
            EvaluationError::Primitive(PrimitiveEvaluationError::Failure(m)) => {
                Failure::PrimitiveFailure(m@)
            },
            EvaluationError::Interpreter(InterpreterError::MissingCommandLineArg(n, m)) => {
                Failure::MissingCommandLineArg(*n, *m)
            },
            EvaluationError::Interpreter(InterpreterError::MissingNamespace(ns)) => {
                Failure::MissingNamespace(ns@)
            },
            EvaluationError::Interpreter(InterpreterError::SystemTimeError(m)) => {
                Failure::SystemTimeError(m@)
            },
            EvaluationError::Interpreter(InterpreterError::IOError(m)) => Failure::IOError(m@),
            EvaluationError::Interpreter(InterpreterError::BudgetSpent) => Failure::BudgetSpent,
            EvaluationError::ReaderError(e, source) => reader_failure(*e, source@),
        }
    }
}

/// The text of an error.
pub open spec fn failure_text(f: Failure) -> Seq<char> {
    match f {
        Failure::WrongType(expected, realized) => 
            "form invoked with an argument of the incorrect type: expected a value of type(s) `"@
            + expected + "` but found value `"@ + print(realized, false) + "`"@,
        Failure::WrongArity(expected, realized) => 
            "form invoked with incorrect arity: provided "@ + digits(realized as nat)
            + " arguments but expected "@ + digits(expected as nat) + " arguments"@,
        Failure::CannotDerefUnboundVar(v) => "cannot deref an unbound var `"@ + print(v, false)
            + "`"@,
        Failure::MissingVar(id, ns) => "symbol error: var `"@ + id + "` not found in namespace `"@
            + ns + "`"@,
        Failure::UnableToResolveSymbolToValue(id) => "symbol error: symbol "@ + id
            + " could not be resolved"@,
        Failure::CannotInvoke(v) => "list error: cannot invoke the supplied value "@ + print(
            v,
            false,
        ),
        Failure::ListFailure(m) => "list error: some failure: "@ + m,
        Failure::QuasiquoteError(m) => "list error: error evaluating quasiquote: "@ + m,
        Failure::MissingCapturedValue(id) => "list error: missing value for captured symbol `"@
            + id + "`"@,
        Failure::BindingsInLetMustBePaired(_) => 
            "syntax error: bindings in `let` form must be pairs of names and values"@,
        Failure::MissingForms => "syntax error: expected further forms when parsing data"@,
        Failure::LexicalBindingsMustBeVector(v) => 
            "syntax error: expected vector of lexical bindings instead of "@ + print(v, false),
        Failure::NamesInLetMustNotBeNamespaced(v) => 
            "syntax error: names in `let` form must not be namespaced like "@ + print(v, false),
        Failure::NamesInLetMustBeSymbols(v) => 
            "syntax error: names in `let` form must be symbols unlike "@ + print(v, false),
        Failure::PrimitiveFailure(m) => "primitive error: something failed "@ + m,
        Failure::MissingCommandLineArg(n, m) => "interpreter error: requested the "@ + digits(
            n as nat,
        ) + "th command line arg but only "@ + digits(m as nat) + " supplied"@,
        Failure::MissingNamespace(ns) => "interpreter error: namespace "@ + ns + " not found"@,
        Failure::SystemTimeError(m) => "interpreter error: system time error: "@ + m,
        Failure::IOError(m) => "interpreter error: io error: "@ + m,
        Failure::BudgetSpent => "interpreter error: evaluation budget spent"@,
        Failure::ExtraneousInput(_) => "reader error: reader could not parse the full input"@,
        Failure::ParserError(m, _) => "reader error: "@ + m,
        Failure::UnknownReaderError(_) => "reader error: unknown error occurred"@,
    }
}

impl ReaderError {
    /// The text of the error.
    pub fn message(&self) -> (s: String)
        ensures
            s@ == failure_text(self@),
    {
        let mut out: Vec<char> = Vec::new();
        match self {
            ReaderError::ExtraneousInput => {
                push_str(&mut out, "reader error: reader could not parse the full input");
            },
            ReaderError::ParserError(m) => {
                push_str(&mut out, "reader error: ");
                push_str(&mut out, m.as_str());
            },
            ReaderError::Unknown => {
                push_str(&mut out, "reader error: unknown error occurred");
            },
        }
        assert(out@ =~= failure_text(self@));
        string_of(&out)
    }

    /// A copy of the error.
    pub fn duplicate(&self) -> (r: ReaderError)
        ensures
            r@ == self@,
            forall|source: Seq<char>| reader_failure(r, source) == reader_failure(*self, source),
    {
        match self {
            ReaderError::ExtraneousInput => ReaderError::ExtraneousInput,
            ReaderError::ParserError(m) => ReaderError::ParserError(m.clone()),
            ReaderError::Unknown => ReaderError::Unknown,
        }
    }
}

impl EvaluationError {
    /// The text of the error.
    pub fn message(&self) -> (s: String)
        ensures
            s@ == failure_text(self@),
    {
        let mut out: Vec<char> = Vec::new();
        match self {
            EvaluationError::WrongType { expected, realized } => {
                push_str(
                    &mut out,
                    "form invoked with an argument of the incorrect type: expected a value of type(s) `",
                );
                push_str(&mut out, expected.as_str());
                push_str(&mut out, "` but found value `");
                write_value(&mut out, realized, false);
                push_str(&mut out, "`");
            },
            EvaluationError::WrongArity { expected, realized } => {
                push_str(&mut out, "form invoked with incorrect arity: provided ");
                push_digits(&mut out, *realized as u64);
                push_str(&mut out, " arguments but expected ");
                push_digits(&mut out, *expected as u64);
                push_str(&mut out, " arguments");
            },
            EvaluationError::CannotDerefUnboundVar(v) => {
                push_str(&mut out, "cannot deref an unbound var `");
                write_value(&mut out, v, false);
                push_str(&mut out, "`");
            },
            EvaluationError::Symbol(SymbolEvaluationError::MissingVar(id, ns)) => {
                push_str(&mut out, "symbol error: var `");
                push_str(&mut out, id.as_str());
                push_str(&mut out, "` not found in namespace `");
                push_str(&mut out, ns.as_str());
                push_str(&mut out, "`");
            },
            EvaluationError::Symbol(SymbolEvaluationError::UnableToResolveSymbolToValue(id)) => {
                push_str(&mut out, "symbol error: symbol ");
                push_str(&mut out, id.as_str());
                push_str(&mut out, " could not be resolved");
            },
            EvaluationError::List(ListEvaluationError::CannotInvoke(v)) => {
                push_str(&mut out, "list error: cannot invoke the supplied value ");
                write_value(&mut out, v, false);
            },
            EvaluationError::List(ListEvaluationError::Failure(m)) => {
                push_str(&mut out, "list error: some failure: ");
                push_str(&mut out, m.as_str());
            },
            EvaluationError::List(ListEvaluationError::QuasiquoteError(m)) => {
                push_str(&mut out, "list error: error evaluating quasiquote: ");
                push_str(&mut out, m.as_str());
            },
            EvaluationError::List(ListEvaluationError::MissingCapturedValue(id)) => {
                push_str(&mut out, "list error: missing value for captured symbol `");
                push_str(&mut out, id.as_str());
                push_str(&mut out, "`");
            },
            EvaluationError::Syntax(SyntaxError::BindingsInLetMustBePaired(_)) => {
                push_str(
                    &mut out,
                    "syntax error: bindings in `let` form must be pairs of names and values",
                );
            },
            EvaluationError::Syntax(SyntaxError::MissingForms) => {
                push_str(&mut out, "syntax error: expected further forms when parsing data");
            },
            EvaluationError::Syntax(SyntaxError::LexicalBindingsMustBeVector(v)) => {
                push_str(&mut out, "syntax error: expected vector of lexical bindings instead of ");
                write_value(&mut out, v, false);
            },
            EvaluationError::Syntax(SyntaxError::NamesInLetMustNotBeNamespaced(v)) => {
                push_str(
                    &mut out,
                    "syntax error: names in `let` form must not be namespaced like ",
                );
                write_value(&mut out, v, false);
            },
            EvaluationError::Syntax(SyntaxError::NamesInLetMustBeSymbols(v)) => {
                push_str(&mut out, "syntax error: names in `let` form must be symbols unlike ");
                write_value(&mut out, v, false);
            },
            EvaluationError::Primitive(PrimitiveEvaluationError::Failure(m)) => {
                push_str(&mut out, "primitive error: something failed ");
                push_str(&mut out, m.as_str());
            },
            EvaluationError::Interpreter(InterpreterError::MissingCommandLineArg(n, m)) => {
                push_str(&mut out, "interpreter error: requested the ");
                push_digits(&mut out, *n as u64);
                push_str(&mut out, "th command line arg but only ");
                push_digits(&mut out, *m as u64);
                push_str(&mut out, " supplied");
            },
            EvaluationError::Interpreter(InterpreterError::MissingNamespace(ns)) => {
                push_str(&mut out, "interpreter error: namespace ");
                push_str(&mut out, ns.as_str());
                push_str(&mut out, " not found");
            },
            EvaluationError::Interpreter(InterpreterError::SystemTimeError(m)) => {
                push_str(&mut out, "interpreter error: system time error: ");
                push_str(&mut out, m.as_str());
            },
            EvaluationError::Interpreter(InterpreterError::IOError(m)) => {
                push_str(&mut out, "interpreter error: io error: ");
                push_str(&mut out, m.as_str());
            },
            EvaluationError::Interpreter(InterpreterError::BudgetSpent) => {
                push_str(&mut out, "interpreter error: evaluation budget spent");
            },
            EvaluationError::ReaderError(e, _) => {
                match e {
                    ReaderError::ExtraneousInput => {
                        push_str(
                            &mut out,
                            "reader error: reader could not parse the full input",
                        );
                    },
                    ReaderError::ParserError(m) => {
                        push_str(&mut out, "reader error: ");
                        push_str(&mut out, m.as_str());
                    },
                    ReaderError::Unknown => {
                        push_str(&mut out, "reader error: unknown error occurred");
                    },
                }
            },
        }
        assert(out@ =~= failure_text(self@));
        string_of(&out)
    }
}

/// The list failure with the given message.
pub fn list_failure(message: &str) -> (e: EvaluationError)
    ensures
        e@ == Failure::ListFailure(message@),
{
    EvaluationError::List(ListEvaluationError::Failure(String::from_str(message)))
}

/// The primitive failure with the given message.
pub fn primitive_failure(message: &str) -> (e: EvaluationError)
    ensures
        e@ == Failure::PrimitiveFailure(message@),
{
    EvaluationError::Primitive(PrimitiveEvaluationError::Failure(String::from_str(message)))
}

/// The list failure whose message is `prefix` followed by the text of
/// `inner`.
pub fn wrapped_failure(prefix: &str, inner: &EvaluationError) -> (e: EvaluationError)
    ensures
        e@ == Failure::ListFailure(prefix@ + failure_text(inner@)),
{
    let mut text = String::from_str(prefix);
    let rest = inner.message();
    text.append(rest.as_str());
    EvaluationError::List(ListEvaluationError::Failure(text))
}

} // verus!
