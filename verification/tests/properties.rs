use sigil::boot::{evaluate_from_string, InterpreterBuilder, CORE_SOURCE, DEFAULT_DEPTH};
use sigil::equality::equal;
use sigil::errors::{
    EvaluationError, InterpreterError, ListEvaluationError, PrimitiveEvaluationError,
    ReaderError, SymbolEvaluationError, SyntaxError,
};
use sigil::maps::{
    exception, list_with_values, map_with_values, set_with_values, vector_with_values,
};
use sigil::namespace::Namespace;
use sigil::params::{get_lambda_parameter_level, lambda_parameter_key};
use sigil::quasiquote::eval_quasiquote;
use sigil::reader::{lower_forms, read, read_values, Fault, Form};
use sigil::state::Interpreter;
use sigil::text::{decimal_string, index_string};
use sigil::value::{FnWithCapturesImpl, Primitive, Value};

fn interpreter() -> Interpreter {
    match InterpreterBuilder::new().build_with_core_source(CORE_SOURCE) {
        Ok(interpreter) => interpreter,
        Err(e) => panic!("could not build the interpreter: {}", e.message()),
    }
}

fn run(interpreter: &mut Interpreter, source: &str) -> Result<Value, EvaluationError> {
    let forms = match read_values(source) {
        Ok(forms) => forms,
        Err(e) => panic!("could not read `{}`: {}", source, e.message()),
    };
    let mut last = Value::Nil;
    for form in &forms {
        last = interpreter.evaluate(form)?;
    }
    Ok(last)
}

fn value_of(source: &str) -> Value {
    let mut interpreter = interpreter();
    match run(&mut interpreter, source) {
        Ok(v) => v,
        Err(e) => panic!("could not evaluate `{}`: {}", source, e.message()),
    }
}

fn error_of(source: &str) -> EvaluationError {
    let mut interpreter = interpreter();
    match run(&mut interpreter, source) {
        Ok(v) => panic!("`{}` gave {}", source, v.to_readable_string()),
        Err(e) => e,
    }
}

fn text(s: &str) -> Value {
    Value::String(s.to_string())
}

fn sym(s: &str) -> Value {
    Value::Symbol(s.to_string(), None)
}

fn key(s: &str) -> Value {
    Value::Keyword(s.to_string(), None)
}

/// Whether a value is the expected one: of the same kind, with the same
/// items in the same places. A list is no vector. Maps and sets are the
/// same when they hold the same entries or members, in any order. The
/// mark that an exception is in flight is not compared: expected
/// exceptions are built without it.
fn same_value(a: &Value, b: &Value) -> bool {
    fn same_run(xs: &[Value], ys: &[Value]) -> bool {
        xs.len() == ys.len() && xs.iter().zip(ys.iter()).all(|(x, y)| same_value(x, y))
    }
    fn within(xs: &[Value], ys: &[Value], width: usize) -> bool {
        xs.len() == ys.len()
            && xs.chunks(width).all(|x| ys.chunks(width).any(|y| same_run(x, y)))
    }
    match (a, b) {
        (Value::List(x), Value::List(y)) => same_run(&x.items(), &y.items()),
        (Value::Vector(x), Value::Vector(y)) => same_run(&x.items(), &y.items()),
        (Value::Recur(x), Value::Recur(y)) => same_run(&x.items(), &y.items()),
        (Value::HashMap(x), Value::HashMap(y)) => {
            within(&x.entries.items(), &y.entries.items(), 2)
        }
        (Value::HashSet(x), Value::HashSet(y)) => {
            within(&x.members.items(), &y.members.items(), 1)
        }
        (Value::Exception(x), Value::Exception(y)) => {
            x.message == y.message && same_value(&x.data, &y.data)
        }
        (Value::List(_), _)
        | (Value::Vector(_), _)
        | (Value::Recur(_), _)
        | (Value::HashMap(_), _)
        | (Value::HashSet(_), _)
        | (Value::Exception(_), _) => false,
        _ => equal(a, b),
    }
}

fn same(a: &Value, b: &Value) {
    assert!(
        same_value(a, b),
        "{} is not {}",
        a.to_readable_string(),
        b.to_readable_string()
    );
}

// Printing and reading back.

fn round_trip(value: Value) {
    let mut source = "(quote ".to_string();
    source.push_str(&value.to_readable_string());
    source.push(')');
    let forms = read_values(&source).unwrap();
    assert_eq!(forms.len(), 1);
    let mut interpreter = interpreter();
    let back = interpreter.evaluate(&forms[0]).ok().unwrap();
    same(&back, &value);
    assert_eq!(back.to_readable_string(), value.to_readable_string());
}

#[test]
fn printed_values_read_back() {
    round_trip(Value::Nil);
    round_trip(Value::Bool(true));
    round_trip(Value::Bool(false));
    round_trip(Value::Number(0));
    round_trip(Value::Number(-1337));
    round_trip(Value::Number(i64::MAX));
    round_trip(Value::Number(i64::MIN));
    round_trip(text(""));
    round_trip(text("a \"quoted\" word, a \\ and a\nline end"));
    round_trip(key("foo"));
    round_trip(Value::Keyword("hi".to_string(), Some("net".to_string())));
    round_trip(sym("into+"));
    round_trip(sym("/"));
    round_trip(Value::Symbol("cons".to_string(), Some("core".to_string())));
    round_trip(list_with_values(vec![]));
    round_trip(list_with_values(vec![
        Value::Number(1),
        sym("b"),
        vector_with_values(vec![text("c"), list_with_values(vec![Value::Nil])]),
    ]));
    round_trip(map_with_values(vec![
        (key("a"), Value::Number(1)),
        (text("b"), vector_with_values(vec![])),
    ]));
    round_trip(set_with_values(vec![Value::Number(1), key("b"), text("c")]));
}

#[test]
fn symbol_named_like_a_constant_reads_as_the_constant() {
    let forms = read_values(&sym("nil").to_readable_string()).unwrap();
    same(&forms[0], &Value::Nil);
}

#[test]
fn decimal_numerals() {
    assert_eq!(decimal_string(0), "0");
    assert_eq!(decimal_string(7), "7");
    assert_eq!(decimal_string(-40320), "-40320");
    assert_eq!(decimal_string(i64::MAX), "9223372036854775807");
    assert_eq!(decimal_string(i64::MIN), "-9223372036854775808");
    assert_eq!(index_string(0), "0");
    assert_eq!(index_string(1234567890), "1234567890");
}

#[test]
fn texts_of_values() {
    assert_eq!(value_of("'(1 \"a\" :b c [d] {:e 1, :f 2} #{g})").to_readable_string(),
        "(1 \"a\" :b c [d] {:e 1, :f 2} #{g})");
    assert_eq!(value_of("'(1 \"a\" :b)").to_plain_string(), "(1 a :b)");
    assert_eq!(value_of("(fn* [a] a)").to_readable_string(), "<fn*>");
    assert_eq!(value_of("((fn* [a] (fn* [b] a)) 1)").to_readable_string(), "<fn* +captures>");
    assert_eq!(value_of("+").to_readable_string(), "<primitive fn>");
    assert_eq!(value_of("(def! a 1)").to_readable_string(), "#'core/a");
    assert_eq!(value_of("(ex-info \"m\" 1)").to_readable_string(), "exception: m, 1");
    assert_eq!(value_of("(str \"a\\nb\")").to_readable_string(), "\"a\\nb\"");
}

// The reader.

fn reader_message(source: &str) -> String {
    match read(source) {
        Ok(_) => panic!("`{}` was read", source),
        Err(e) => e.message(),
    }
}

#[test]
fn reader_keeps_blanks_and_comments() {
    let forms = read("(a ;c\n b)").unwrap();
    assert_eq!(
        forms,
        vec![Form::List(vec![
            Form::Symbol("a".to_string(), None),
            Form::Whitespace(" ".to_string()),
            Form::Comment("c".to_string()),
            Form::Whitespace(" ".to_string()),
            Form::Symbol("b".to_string(), None),
        ])]
    );
    assert_eq!(forms[0].to_text(), "(a ;c b)");
    let values = lower_forms(&forms).ok().unwrap();
    same(&values[0], &list_with_values(vec![sym("a"), sym("b")]));
}

#[test]
fn reader_text_of_forms() {
    for source in ["(12 :foo/bar \"ex\\ntra\" [a -1], {b c} #{d})", "'x", ""] {
        let forms = read(source).unwrap();
        let mut written = String::new();
        for form in &forms {
            written.push_str(&form.to_text());
        }
        if source == "'x" {
            assert_eq!(written, "(quotex)");
        } else {
            assert_eq!(written, source);
        }
    }
}

#[test]
fn reader_sugar() {
    same(&read_values("'x").unwrap()[0], &list_with_values(vec![sym("quote"), sym("x")]));
    same(&read_values("`x").unwrap()[0], &list_with_values(vec![sym("quasiquote"), sym("x")]));
    same(&read_values("~x").unwrap()[0], &list_with_values(vec![sym("unquote"), sym("x")]));
    same(
        &read_values("~@x").unwrap()[0],
        &list_with_values(vec![sym("splice-unquote"), sym("x")]),
    );
    same(&read_values("@x").unwrap()[0], &list_with_values(vec![sym("deref"), sym("x")]));
    same(
        &read_values("'(a 'b)").unwrap()[0],
        &list_with_values(vec![
            sym("quote"),
            list_with_values(vec![sym("a"), list_with_values(vec![sym("quote"), sym("b")])]),
        ]),
    );
}

#[test]
fn reader_numbers_and_names() {
    same(&read_values("-12").unwrap()[0], &Value::Number(-12));
    same(&read_values("+12").unwrap()[0], &Value::Number(12));
    same(&read_values("-").unwrap()[0], &sym("-"));
    same(&read_values("-a").unwrap()[0], &sym("-a"));
    same(&read_values("/").unwrap()[0], &sym("/"));
    same(&read_values("&").unwrap()[0], &sym("&"));
    same(
        &read_values("core/+").unwrap()[0],
        &Value::Symbol("+".to_string(), Some("core".to_string())),
    );
    same(&read_values("9223372036854775807").unwrap()[0], &Value::Number(i64::MAX));
    same(&read_values("-9223372036854775808").unwrap()[0], &Value::Number(i64::MIN));
    assert_eq!(reader_message("9223372036854775808"), "reader error: number out of range at position 0");
    assert_eq!(
        reader_message("(1 -9223372036854775809)"),
        "reader error: number out of range at position 3"
    );
}

#[test]
fn reader_string_escapes() {
    same(&read_values("\"a\\nb\"").unwrap()[0], &text("a\nb"));
    same(&read_values("\"a\\\\b\"").unwrap()[0], &text("a\\b"));
    same(&read_values("\"a\\\"b\"").unwrap()[0], &text("a\"b"));
    same(&read_values("\"a\\db\"").unwrap()[0], &text("a\\db"));
    same(&read_values("\" \\\\n \"").unwrap()[0], &text(" \\n "));
}

#[test]
fn reader_errors() {
    assert_eq!(reader_message("\"abc"), "reader error: unexpected end of input at position 4");
    assert_eq!(reader_message("(1 2"), "reader error: unexpected end of input at position 4");
    assert_eq!(reader_message("[1 2"), "reader error: unexpected end of input at position 4");
    assert_eq!(reader_message("{1 2"), "reader error: unexpected end of input at position 4");
    assert_eq!(reader_message("#{1 2"), "reader error: unexpected end of input at position 5");
    assert_eq!(reader_message("'"), "reader error: unexpected end of input at position 1");
    assert_eq!(reader_message("(1 2]"), "reader error: reader could not parse the full input");
    assert_eq!(reader_message("1 )"), "reader error: reader could not parse the full input");
    assert_eq!(reader_message("1 % 2"), "reader error: unexpected character at position 2");
    assert_eq!(reader_message("#"), "reader error: unexpected character at position 0");
    assert_eq!(reader_message(":"), "reader error: unexpected character at position 0");
    assert!(matches!(read("1 )"), Err(ReaderError::ExtraneousInput)));
    assert!(matches!(read("(1"), Err(ReaderError::ParserError(_))));
}

#[test]
fn reader_odd_map() {
    assert!(matches!(read("{a b c}"), Err(ReaderError::ParserError(_))));
    assert_eq!(
        reader_message("{a b c}"),
        "reader error: map literal needs an even number of forms at position 0"
    );
    assert_eq!(
        reader_message("(1 {a ; b\n })"),
        "reader error: map literal needs an even number of forms at position 3"
    );
    assert!(read("{a ; b\n c}").is_ok());
    assert!(read("#{a b c}").is_ok());
    match read_values("[{a b c}]") {
        Err(e) => assert_eq!(
            e.message(),
            "reader error: map literal needs an even number of forms at position 1"
        ),
        Ok(_) => panic!("an odd map was read"),
    }
    let odd = vec![Form::HashMap(vec![Form::Symbol("a".to_string(), None)])];
    assert!(matches!(lower_forms(&odd), Err(Fault::OddMap)));
    same(
        &read_values("{a 1 ; two\n b 2}").unwrap()[0],
        &map_with_values(vec![(sym("a"), Value::Number(1)), (sym("b"), Value::Number(2))]),
    );
    same(
        &read_values("{a 1 a 2}").unwrap()[0],
        &map_with_values(vec![(sym("a"), Value::Number(2))]),
    );
    same(
        &read_values("#{1 2 1}").unwrap()[0],
        &set_with_values(vec![Value::Number(1), Value::Number(2)]),
    );
}

// Reserved names of parameters.

#[test]
fn parameter_keys() {
    assert_eq!(lambda_parameter_key(0, 0), ":system-fn-%0/0");
    assert_eq!(lambda_parameter_key(12, 3), ":system-fn-%12/3");
    assert_eq!(get_lambda_parameter_level(":system-fn-%12/3"), Some(3));
    assert_eq!(get_lambda_parameter_level(":system-fn-%0/10"), Some(10));
    assert_eq!(get_lambda_parameter_level(&lambda_parameter_key(7, 123)), Some(123));
    assert_eq!(get_lambda_parameter_level("system-fn-%0/1"), None);
    assert_eq!(get_lambda_parameter_level(":system-fn-%0"), None);
    assert_eq!(get_lambda_parameter_level(":system-fn-%0/"), None);
    assert_eq!(get_lambda_parameter_level(":system-fn-%0/a"), None);
    assert_eq!(get_lambda_parameter_level("a"), None);
}

// Quasiquotation.

fn expansion(source: &str) -> String {
    let form = read_values(source).unwrap().remove(0);
    match eval_quasiquote(&form) {
        Ok(v) => v.to_readable_string(),
        Err(e) => e.message(),
    }
}

#[test]
fn quasiquote_expansions() {
    assert_eq!(expansion("7"), "7");
    assert_eq!(expansion("a"), "(quote a)");
    assert_eq!(expansion("{:a b}"), "(quote {:a b})");
    assert_eq!(expansion("()"), "()");
    assert_eq!(expansion("(unquote a)"), "a");
    assert_eq!(
        expansion("(a (unquote b) (splice-unquote c))"),
        "(core/cons (quote a) (core/cons b (core/concat c ())))"
    );
    assert_eq!(expansion("(())"), "(core/cons () ())");
    assert_eq!(expansion("[a]"), "(core/vec (core/cons (quote a) ()))");
    assert_eq!(expansion("((splice-unquote))"), "()");
    assert_eq!(
        expansion("(unquote)"),
        "list error: error evaluating quasiquote: type error to `unquote`"
    );
    assert_eq!(
        expansion("(a (unquote))"),
        "list error: error evaluating quasiquote: type error to `unquote`"
    );
}

// Evaluation.

#[test]
fn thunk_of_a_literal_gives_the_literal() {
    for literal in ["nil", "true", "false", "7", "-7", "\"seven\"", ":seven"] {
        let mut wrapped = "((fn* [] ".to_string();
        wrapped.push_str(literal);
        wrapped.push_str("))");
        same(&value_of(&wrapped), &value_of(literal));
    }
}

#[test]
fn macroexpand_leaves_other_lists_alone() {
    same(
        &value_of("(macroexpand '(+ 1 2))"),
        &list_with_values(vec![sym("+"), Value::Number(1), Value::Number(2)]),
    );
    same(
        &value_of("(macroexpand (macroexpand '(+ 1 2)))"),
        &list_with_values(vec![sym("+"), Value::Number(1), Value::Number(2)]),
    );
    same(&value_of("(macroexpand '())"), &list_with_values(vec![]));
    same(
        &value_of("(defmacro! n (fn* [] 7)) (defmacro! m (fn* [] (list 'n))) (macroexpand '(m))"),
        &Value::Number(7),
    );
    assert_eq!(
        error_of("(macroexpand)").message(),
        "form invoked with incorrect arity: provided 0 arguments but expected 1 arguments"
    );
}

#[test]
fn swap_then_deref() {
    same(
        &value_of("(def! a (atom 3)) (def! r (swap! a (fn* [x y] (* x y)) 5)) (list r (deref a))"),
        &list_with_values(vec![Value::Number(15), Value::Number(15)]),
    );
    same(
        &value_of("(def! a (atom 3)) (swap! a (fn* [x] (do (reset! a 100) (+ x 1)))) (deref a)"),
        &Value::Number(4),
    );
    same(
        &value_of("(def! a (atom 3)) (try* (swap! a /) (catch* e 0)) (deref a)"),
        &Value::Number(0),
    );
    let mut interpreter = interpreter();
    assert!(run(&mut interpreter, "(def! a (atom 3)) (swap! a / 0)").is_err());
    same(&run(&mut interpreter, "(deref a)").ok().unwrap(), &Value::Number(3));
}

#[test]
fn failed_def_leaves_the_symbol_as_it_was() {
    let mut interpreter = interpreter();
    let failed = run(&mut interpreter, "(def! a (undefined-symbol))");
    assert_eq!(
        failed.err().unwrap().message(),
        "list error: some failure: could not evaluate `def!`: symbol error: var `undefined-symbol` not found in namespace `core`"
    );
    assert!(matches!(
        run(&mut interpreter, "a"),
        Err(EvaluationError::Symbol(SymbolEvaluationError::MissingVar(_, _)))
    ));
    same(&run(&mut interpreter, "(def! a 1) a").ok().unwrap(), &Value::Number(1));
    assert!(run(&mut interpreter, "(def! a (/ 1 0))").is_err());
    same(&run(&mut interpreter, "a").ok().unwrap(), &Value::Number(1));
    assert!(run(&mut interpreter, "(defmacro! m 7)").is_err());
    assert!(run(&mut interpreter, "m").is_err());
}

#[test]
fn empty_list_evaluates_to_itself() {
    same(&value_of("()"), &list_with_values(vec![]));
    assert_eq!(value_of("()").to_readable_string(), "()");
}

#[test]
fn truth_of_values() {
    same(&value_of("(if nil 1 2)"), &Value::Number(2));
    same(&value_of("(if false 1 2)"), &Value::Number(2));
    same(&value_of("(if 0 1 2)"), &Value::Number(1));
    same(&value_of("(if \"\" 1 2)"), &Value::Number(1));
    same(&value_of("(if [] 1 2)"), &Value::Number(1));
    same(&value_of("(if () 1 2)"), &Value::Number(1));
    same(&value_of("(if {} 1 2)"), &Value::Number(1));
    same(&value_of("(if :k 1 2)"), &Value::Number(1));
    assert_eq!(error_of("(if)").message(), "list error: some failure: could not evaluate `if`");
    assert_eq!(error_of("(if true)").message(), "list error: some failure: could not evaluate `if`");
}

#[test]
fn recur_outside_of_a_loop_is_an_error() {
    assert_eq!(
        error_of("(recur 1)").message(),
        "list error: some failure: `recur` outside of `loop*`"
    );
    assert_eq!(
        error_of("(recur)").message(),
        "list error: some failure: `recur` outside of `loop*`"
    );
    assert!(run(&mut interpreter(), "((fn* [] (recur 1)))").is_err());
    same(&value_of("(loop* [i 0] (if (< i 3) ((fn* [] (recur (+ i 1)))) i))"), &Value::Number(3));
    assert_eq!(
        error_of("(loop* [i 0] (recur 1 2))").message(),
        "list error: some failure: could not evaluate `loop*`: recur with incorrect number of bindings"
    );
}

#[test]
fn variadic_marker_needs_a_name() {
    assert_eq!(
        error_of("(fn* [a &] a)").message(),
        "list error: some failure: could not evaluate `fn*`: variadic binding missing after `&`"
    );
    assert_eq!(
        error_of("(fn* [&] 1)").message(),
        "list error: some failure: could not evaluate `fn*`: variadic binding missing after `&`"
    );
    assert_eq!(
        error_of("(fn* [& a b] 1)").message(),
        "list error: some failure: could not evaluate `fn*`: variadic binding missing after `&`"
    );
    assert_eq!(
        error_of("(fn* [a & 1] 1)").message(),
        "list error: some failure: could not evaluate `fn*`: variadic binding must be a symbol"
    );
    assert_eq!(
        error_of("(fn* [a & &] 1)").message(),
        "list error: some failure: could not evaluate `fn*`: variadic binding must be a symbol"
    );
    assert_eq!(
        error_of("(fn* [a 1] 1)").message(),
        "list error: some failure: could not evaluate `fn*`: parameters must be non-namespaced symbols"
    );
}

#[test]
fn operands_are_evaluated_before_the_call() {
    same(
        &value_of("(def! f (fn* [a b] (list a b))) (def! g (fn* [x y] (f y x))) (g 1 2)"),
        &list_with_values(vec![Value::Number(2), Value::Number(1)]),
    );
}

#[test]
fn scopes_are_left_on_every_path() {
    let mut interpreter = interpreter();
    let before = interpreter.scopes.len();
    for source in [
        "(let* [a 1] (undefined-symbol))",
        "(let* [a (undefined-symbol)] a)",
        "(loop* [a (undefined-symbol)] a)",
        "(loop* [a 1] (undefined-symbol))",
        "(loop* [a 1] (recur 1 2))",
        "((fn* [a] (undefined-symbol-at-call a)) 1)",
        "(def! f (fn* [a] (/ a 0))) (f 1)",
        "(((fn* [a] (fn* [b] (/ a b))) 1) 0)",
        "(try* (throw 1) (catch* e (/ 1 0)))",
        "(map (fn* [a] (/ 1 a)) [1 0])",
        "(((fn* [a] (fn* [b] (map (fn* [c] (/ a c)) [b]))) 1) 0)",
    ] {
        assert!(run(&mut interpreter, source).is_err(), "{}", source);
        assert_eq!(interpreter.scopes.len(), before, "{}", source);
    }
    for source in [
        "(let* [a 1] a)",
        "(loop* [a 1] (if (< a 5) (recur (+ a 1)) a))",
        "(try* (throw 1) (catch* e e))",
        "(((fn* [a] (fn* [b] (+ a b))) 1) 2)",
        "(eval '(+ 1 2))",
    ] {
        assert!(run(&mut interpreter, source).is_ok(), "{}", source);
        assert_eq!(interpreter.scopes.len(), before, "{}", source);
    }
}

#[test]
fn budget_is_an_error_and_comes_back() {
    let mut interpreter = interpreter();
    assert_eq!(interpreter.depth, DEFAULT_DEPTH);
    let failed = run(&mut interpreter, "(def! f (fn* [n] (+ 1 (f (+ n 1))))) (f 0)");
    let message = failed.err().unwrap().message();
    assert!(message.ends_with("interpreter error: evaluation budget spent"), "{}", message);
    assert_eq!(interpreter.depth, DEFAULT_DEPTH);
    same(&run(&mut interpreter, "(+ 1 2)").ok().unwrap(), &Value::Number(3));
    interpreter.depth = 0;
    assert!(matches!(
        interpreter.evaluate(&Value::Number(1)),
        Err(EvaluationError::Interpreter(InterpreterError::BudgetSpent))
    ));
    interpreter.depth = 1;
    same(&interpreter.evaluate(&Value::Number(1)).ok().unwrap(), &Value::Number(1));
    same(&interpreter.evaluate(&list_with_values(vec![])).ok().unwrap(), &list_with_values(vec![]));
    let sum = list_with_values(vec![sym("+"), Value::Number(1), Value::Number(2)]);
    assert!(matches!(
        interpreter.evaluate(&sum),
        Err(EvaluationError::Interpreter(InterpreterError::BudgetSpent))
    ));
    interpreter.depth = 2;
    same(&interpreter.evaluate(&sum).ok().unwrap(), &Value::Number(3));
}

#[test]
fn loops_do_not_nest() {
    same(
        &value_of("(loop* [i 0 acc 0] (if (< i 100000) (recur (+ i 1) (+ acc i)) acc))"),
        &Value::Number(4999950000),
    );
}

// Errors.

#[test]
fn errors_of_symbols_and_calls() {
    assert_eq!(
        error_of("missing").message(),
        "symbol error: var `missing` not found in namespace `core`"
    );
    assert!(matches!(
        error_of("other/missing"),
        EvaluationError::Interpreter(InterpreterError::MissingNamespace(_))
    ));
    assert_eq!(error_of("other/missing").message(), "interpreter error: namespace other not found");
    assert_eq!(error_of("(1 2)").message(), "list error: cannot invoke the supplied value 1");
    assert!(matches!(
        error_of("(\"a\")"),
        EvaluationError::List(ListEvaluationError::CannotInvoke(_))
    ));
    assert_eq!(
        error_of("((fn* [a] a))").message(),
        "list error: some failure: could not apply `fn*`: incorrect arity"
    );
    assert_eq!(
        error_of("((fn* [a] a) missing)").message(),
        "list error: some failure: could not apply `fn*`: symbol error: var `missing` not found in namespace `core`"
    );
    assert_eq!(error_of("(var)").message(), "list error: some failure: could not evaluate `var`");
    assert_eq!(error_of("(quote)").message(), "list error: some failure: could not evaluate `quote`");
    assert_eq!(error_of("(def!)").message(), "list error: some failure: could not evaluate `def!`");
    assert_eq!(error_of("(fn* a)").message(), "list error: some failure: could not evaluate `fn*`");
    assert_eq!(
        error_of("(defmacro! m (fn* [] (/ 1 0))) (m)").message(),
        "list error: some failure: could not apply macro: primitive error: something failed overflow detected"
    );
    assert_eq!(
        error_of("(try* 1 (catch* 2 3))").message(),
        "list error: some failure: could not evaluate `catch*`"
    );
}

#[test]
fn errors_of_let() {
    assert!(matches!(error_of("(let*)"), EvaluationError::Syntax(SyntaxError::MissingForms)));
    assert_eq!(error_of("(let*)").message(), "syntax error: expected further forms when parsing data");
    assert!(matches!(
        error_of("(let* [a] a)"),
        EvaluationError::Syntax(SyntaxError::BindingsInLetMustBePaired(_))
    ));
    assert_eq!(
        error_of("(let* [a] a)").message(),
        "syntax error: bindings in `let` form must be pairs of names and values"
    );
    assert_eq!(
        error_of("(let* (a 1) a)").message(),
        "syntax error: expected vector of lexical bindings instead of (a 1)"
    );
    assert_eq!(
        error_of("(let* [b/a 1] a)").message(),
        "syntax error: names in `let` form must not be namespaced like b/a"
    );
    assert_eq!(
        error_of("(let* [:a 1] a)").message(),
        "syntax error: names in `let` form must be symbols unlike :a"
    );
}

#[test]
fn errors_of_primitives() {
    assert!(matches!(
        error_of("(+ 9223372036854775807 1)"),
        EvaluationError::Primitive(PrimitiveEvaluationError::Failure(_))
    ));
    assert_eq!(
        error_of("(+ 9223372036854775807 1)").message(),
        "primitive error: something failed overflow detected"
    );
    assert_eq!(
        error_of("(- -9223372036854775807 2)").message(),
        "primitive error: something failed underflow detected"
    );
    assert_eq!(
        error_of("(- -9223372036854775808)").message(),
        "primitive error: something failed negation failed"
    );
    assert_eq!(
        error_of("(* 4611686018427387904 2)").message(),
        "primitive error: something failed overflow detected"
    );
    assert_eq!(error_of("(/ 1 0)").message(), "primitive error: something failed overflow detected");
    assert_eq!(
        error_of("(/ -9223372036854775808 -1)").message(),
        "primitive error: something failed overflow detected"
    );
    assert_eq!(
        error_of("(+ 1 :a)").message(),
        "primitive error: something failed plus only takes number arguments"
    );
    assert_eq!(
        error_of("(-)").message(),
        "primitive error: something failed subtract needs more than 0 args"
    );
    assert_eq!(
        error_of("(/)").message(),
        "primitive error: something failed divide needs more than 0 args"
    );
    assert_eq!(error_of("(< 1)").message(), "list error: some failure: wrong arity");
    assert_eq!(error_of("(< 1 :a)").message(), "list error: some failure: incorrect argument");
    assert_eq!(
        error_of("(nth [1] 1)").message(),
        "list error: some failure: collection does not have an element at this index"
    );
    assert_eq!(
        error_of("(nth '(1) 1)").message(),
        "list error: some failure: collection does not have an element at this index"
    );
    assert_eq!(error_of("(nth [1] -1)").message(), "list error: some failure: incorrect argument");
    assert_eq!(
        error_of("(map 1 [1])").message(),
        "form invoked with an argument of the incorrect type: expected a value of type(s) `Fn, FnWithCaptures, Primitive` but found value `1`"
    );
    assert!(matches!(error_of("(map 1 [1])"), EvaluationError::WrongType { .. }));
    assert_eq!(
        error_of("(hash-map 1)").message(),
        "list error: some failure: map needs an even number of arguments"
    );
    assert_eq!(
        error_of("(assoc {} 1 2 3)").message(),
        "list error: some failure: assoc needs keys and values to pair"
    );
    assert_eq!(
        error_of("(read-string \"1 2\")").message(),
        "list error: some failure: `read-string` only reads one form"
    );
    assert!(matches!(error_of("(read-string \"(\")"), EvaluationError::ReaderError(_, _)));
    assert_eq!(
        error_of("(read-string \"(\")").message(),
        "reader error: unexpected end of input at position 1"
    );
    assert_eq!(
        error_of("(def! a) (deref (var a))").message(),
        "cannot deref an unbound var `#'core/a`"
    );
    assert!(matches!(
        error_of("(def! a) (deref (var a))"),
        EvaluationError::CannotDerefUnboundVar(_)
    ));
    assert_eq!(error_of("(throw +)").message(), "list error: some failure: incorrect argument");
}

#[test]
fn division_is_euclidean() {
    same(&value_of("(/ 7 2)"), &Value::Number(3));
    same(&value_of("(/ -7 2)"), &Value::Number(-4));
    same(&value_of("(/ 7 -2)"), &Value::Number(-3));
    same(&value_of("(/ -7 -2)"), &Value::Number(4));
    same(&value_of("(/ 2)"), &Value::Number(0));
    same(&value_of("(/ -1)"), &Value::Number(-1));
    same(&value_of("(/ 100 5 2)"), &Value::Number(10));
}

#[test]
fn unresolved_captures() {
    let mut interpreter = interpreter();
    let closure = match run(&mut interpreter, "(fn* [a] (fn* [b] (+ a b)))").ok().unwrap() {
        Value::Fn(f) => f.body.items().remove(0),
        other => panic!("{}", other.to_readable_string()),
    };
    match &closure {
        Value::FnWithCaptures(FnWithCapturesImpl { names, values, .. }) => {
            assert_eq!(names, &vec![":system-fn-%0/0".to_string()]);
            assert_eq!(values.len(), 0);
        }
        other => panic!("{}", other.to_readable_string()),
    }
    match interpreter.evaluate(&closure) {
        Err(EvaluationError::Symbol(SymbolEvaluationError::UnableToResolveSymbolToValue(name))) => {
            assert_eq!(name, ":system-fn-%0/0")
        }
        _ => panic!("a closure was resolved without its scope"),
    }
    match interpreter.invoke(&closure, &vec![Value::Number(1)]) {
        Err(EvaluationError::List(ListEvaluationError::MissingCapturedValue(name))) => {
            assert_eq!(name, ":system-fn-%0/0")
        }
        _ => panic!("a closure was applied without its captures"),
    }
    assert_eq!(
        interpreter.invoke(&closure, &vec![Value::Number(1)]).err().unwrap().message(),
        "list error: missing value for captured symbol `:system-fn-%0/0`"
    );
}

#[test]
fn captures_are_hoisted_through_every_function_between() {
    same(
        &value_of("(((((fn* [a] (fn* [b] (fn* [c] (fn* [d] (+ a b c d))))) 1) 2) 3) 4)"),
        &Value::Number(10),
    );
    same(
        &value_of("((((fn* [a] (fn* [b] (fn* [c] a))) 1) 2) 3)"),
        &Value::Number(1),
    );
    same(
        &value_of("(((fn* [a] (let* [x 10] (fn* [b] (+ a b)))) 1) 2)"),
        &Value::Number(3),
    );
}

// What passes between the interpreter and its host.

#[test]
fn printing_goes_to_the_output() {
    let mut interpreter = interpreter();
    same(&run(&mut interpreter, "(prn 1 \"a\")").ok().unwrap(), &Value::Nil);
    assert_eq!(interpreter.take_output(), "1 \"a\"\n");
    assert_eq!(interpreter.take_output(), "");
    run(&mut interpreter, "(pr 1 \"a\") (println \"a\" 1) (print [\"b\"])").ok().unwrap();
    assert_eq!(interpreter.take_output(), "1 \"a\"a 1\n[b]");
    same(&run(&mut interpreter, "(pr-str 1 \"a\")").ok().unwrap(), &text("1 \"a\""));
    same(&run(&mut interpreter, "(print-str 1 \"a\")").ok().unwrap(), &text("1 a"));
}

#[test]
fn files_lines_and_clock() {
    let mut interpreter = interpreter();
    assert_eq!(
        run(&mut interpreter, "(slurp \"a.txt\")").err().unwrap().message(),
        "interpreter error: io error: file not found: a.txt"
    );
    interpreter.files.put("a.txt", text("(def! from-file 7)"));
    same(&run(&mut interpreter, "(slurp \"a.txt\")").ok().unwrap(), &text("(def! from-file 7)"));
    same(&run(&mut interpreter, "(load-file \"a.txt\") from-file").ok().unwrap(), &Value::Number(7));
    same(&run(&mut interpreter, "(spit \"b.txt\" [1 \"x\"])").ok().unwrap(), &Value::Nil);
    same(&run(&mut interpreter, "(slurp \"b.txt\")").ok().unwrap(), &text("[1 x]"));
    same(interpreter.written.get("b.txt").unwrap(), &text("[1 x]"));
    same(&run(&mut interpreter, "(readline \"> \")").ok().unwrap(), &Value::Nil);
    assert_eq!(interpreter.take_output(), "> \n");
    interpreter.lines.push("first".to_string());
    interpreter.lines.push("second".to_string());
    same(&run(&mut interpreter, "(readline \"> \")").ok().unwrap(), &text("first"));
    same(&run(&mut interpreter, "(readline \"\")").ok().unwrap(), &text("second"));
    same(&run(&mut interpreter, "(readline \"\")").ok().unwrap(), &Value::Nil);
    same(&run(&mut interpreter, "(time-ms)").ok().unwrap(), &Value::Number(0));
    interpreter.clock = 1234;
    same(&run(&mut interpreter, "(time-ms)").ok().unwrap(), &Value::Number(1234));
    assert_eq!(
        run(&mut interpreter, "(time-ms 1)").err().unwrap().message(),
        "list error: some failure: wrong arity"
    );
}

#[test]
fn command_line_arguments() {
    let mut interpreter = interpreter();
    match interpreter.command_line_arg(0) {
        Err(EvaluationError::Interpreter(InterpreterError::MissingCommandLineArg(0, 0))) => {}
        _ => panic!("an argument was found"),
    }
    interpreter.intern_args(vec!["first".to_string(), "second".to_string()]);
    assert_eq!(interpreter.command_line_arg(1).ok().unwrap(), "second");
    assert_eq!(
        interpreter.command_line_arg(2).err().unwrap().message(),
        "interpreter error: requested the 2th command line arg but only 2 supplied"
    );
    same(
        &run(&mut interpreter, "*command-line-args*").ok().unwrap(),
        &list_with_values(vec![text("first"), text("second")]),
    );
}

#[test]
fn namespaces_and_the_symbol_index() {
    let mut interpreter = interpreter();
    assert_eq!(interpreter.current_namespace(), "core");
    assert!(interpreter.symbol_index().is_none());
    interpreter.register_symbol_index();
    let count = interpreter.symbol_index().unwrap().len();
    assert!(interpreter.symbol_index().unwrap().contains(&"swap!".to_string()));
    assert!(interpreter.symbol_index().unwrap().contains(&"defn".to_string()));
    run(&mut interpreter, "(def! fresh 1) (def! fresh 2)").ok().unwrap();
    assert_eq!(interpreter.symbol_index().unwrap().len(), count + 1);
    let mut namespace = Namespace::new("host");
    namespace.intern("answer", &Value::Number(41));
    namespace.intern("answer", &Value::Number(42));
    namespace.intern("plus", &Value::Primitive(Primitive::Plus));
    interpreter.load_namespace(namespace);
    same(&run(&mut interpreter, "(host/plus host/answer 1)").ok().unwrap(), &Value::Number(43));
    let mut more = Namespace::new("host");
    more.intern("answer", &Value::Number(7));
    interpreter.load_namespace(more);
    same(&run(&mut interpreter, "(host/plus host/answer 1)").ok().unwrap(), &Value::Number(8));
    assert_eq!(
        run(&mut interpreter, "host/missing").err().unwrap().message(),
        "symbol error: var `missing` not found in namespace `host`"
    );
}

#[test]
fn source_is_evaluated_form_by_form() {
    let mut interpreter = interpreter();
    assert!(evaluate_from_string(&mut interpreter, "(def! a 1) (def! b (+ a 1))").is_ok());
    same(&run(&mut interpreter, "b").ok().unwrap(), &Value::Number(2));
    assert!(evaluate_from_string(&mut interpreter, "(def! c 3) (boom) (def! d 4)").is_err());
    same(&run(&mut interpreter, "c").ok().unwrap(), &Value::Number(3));
    assert!(run(&mut interpreter, "d").is_err());
    match evaluate_from_string(&mut interpreter, "(def! e 5") {
        Err(EvaluationError::ReaderError(ReaderError::ParserError(_), source)) => {
            assert_eq!(source, "(def! e 5")
        }
        _ => panic!("a broken text was evaluated"),
    }
    assert!(InterpreterBuilder::new().build_with_core_source("(boom)").is_err());
    let mut builder = InterpreterBuilder::new();
    builder.with_core_file_path("core.sigil".to_string());
    assert_eq!(builder.core_file_path, Some("core.sigil".to_string()));
    let bare = builder.build_with_core_source("").ok().unwrap();
    assert_eq!(bare.current_namespace(), "core");
}

// Values.

#[test]
fn equality_of_values() {
    assert!(equal(
        &list_with_values(vec![Value::Number(1)]),
        &vector_with_values(vec![Value::Number(1)])
    ));
    assert!(!equal(&list_with_values(vec![]), &Value::Nil));
    assert!(equal(
        &map_with_values(vec![(key("a"), Value::Number(1)), (key("b"), Value::Number(2))]),
        &map_with_values(vec![(key("b"), Value::Number(2)), (key("a"), Value::Number(1))]),
    ));
    assert!(!equal(
        &map_with_values(vec![(key("a"), Value::Number(1))]),
        &map_with_values(vec![(key("a"), Value::Number(2))]),
    ));
    assert!(equal(
        &set_with_values(vec![Value::Number(1), Value::Number(2)]),
        &set_with_values(vec![Value::Number(2), Value::Number(1), Value::Number(2)]),
    ));
    assert!(equal(&exception("m", &Value::Nil), &value_of("(throw (ex-info \"m\" nil))")));
    assert!(!equal(&value_of("(atom 1)"), &Value::Atom(7)));
    assert!(equal(&value_of("(= (atom 1) (atom 1))"), &Value::Bool(false)));
    assert!(equal(&value_of("(def! a (atom 1)) (= a a)"), &Value::Bool(true)));
    assert!(equal(&value_of("(= + +)"), &Value::Bool(true)));
    assert!(equal(&value_of("(= + -)"), &Value::Bool(false)));
    assert!(equal(&value_of("(= (fn* [a] a) (fn* [b] b))"), &Value::Bool(true)));
    assert!(equal(&value_of("(= (fn* [a] a) (fn* [a b] a))"), &Value::Bool(false)));
}

#[test]
fn maps_and_sets_keep_their_order() {
    assert_eq!(value_of("(keys {:b 1 :a 2})").to_readable_string(), "(:b :a)");
    assert_eq!(value_of("(vals {:b 1 :a 2})").to_readable_string(), "(1 2)");
    assert_eq!(value_of("(assoc {:b 1 :a 2} :b 3 :c 4)").to_readable_string(), "{:b 3, :a 2, :c 4}");
    assert_eq!(value_of("(dissoc {:b 1 :a 2 :c 3} :a :z)").to_readable_string(), "{:b 1, :c 3}");
    assert_eq!(value_of("(conj #{3 1} 2 1)").to_readable_string(), "#{3 1 2}");
    assert_eq!(value_of("(seq {:a 1 :b 2})").to_readable_string(), "([:a 1] [:b 2])");
    assert_eq!(value_of("(set \"abca\")").to_readable_string(), "#{\"a\" \"b\" \"c\"}");
    assert_eq!(value_of("(conj '(1) 2 3)").to_readable_string(), "(3 2 1)");
    assert_eq!(value_of("(conj [1] 2 3)").to_readable_string(), "[1 2 3]");
    assert_eq!(value_of("(conj {:a 1} [:b 2] {:c 3})").to_readable_string(), "{:a 1, :b 2, :c 3}");
    assert_eq!(value_of("(get {[1 2] :found} '(1 2))").to_readable_string(), ":found");
    assert_eq!(value_of("(count \"h\u{e9}\")").to_readable_string(), "3");
}

#[test]
fn map_applies_to_the_last_item_first() {
    assert_eq!(
        value_of("(def! seen (atom ())) (map (fn* [x] (swap! seen conj x)) [1 2 3]) (deref seen)")
            .to_readable_string(),
        "(1 2 3)"
    );
}

#[test]
fn quoted_forms_inside_functions_stay_as_they_are() {
    same(
        &value_of("((fn* [] (quote (foo bar))))"),
        &list_with_values(vec![sym("foo"), sym("bar")]),
    );
    same(&value_of("((fn* [] (quote (foo bar))))"), &value_of("(quote (foo bar))"));
    same(&value_of("((fn* [a] '(a [a] {a a})) 1)"), &value_of("'(a [a] {a a})"));
    same(&value_of("((fn* [a] 'a) 1)"), &sym("a"));
    same(&value_of("((fn* [a] (list 'a a)) 1)"), &list_with_values(vec![sym("a"), Value::Number(1)]));
    same(&value_of("(((fn* [a] (fn* [b] '(a b))) 1) 2)"), &list_with_values(vec![sym("a"), sym("b")]));
    same(
        &value_of("(defmacro! m (fn* [] '(undefined-a undefined-b))) (macroexpand '(m))"),
        &list_with_values(vec![sym("undefined-a"), sym("undefined-b")]),
    );
    assert!(run(&mut interpreter(), "((fn* [] (foo bar)))").is_err());
}

#[test]
fn templates_inside_functions_keep_what_they_quote() {
    assert_eq!(value_of("((fn* [x] `(a ~x b ~@(list x x) [c ~x] {d e})) 1)").to_readable_string(),
        "(a 1 b 1 1 [c 1] {d e})");
    assert_eq!(
        value_of("((fn* [x] `(a ~x b ~@(list x x) [c ~x] {d e})) 1)").to_readable_string(),
        value_of("(def! x 1) `(a ~x b ~@(list x x) [c ~x] {d e})").to_readable_string()
    );
    assert_eq!(value_of("((fn* [q] `(~q '~q)) 7)").to_readable_string(), "(7 (quote 7))");
    assert_eq!(value_of("(((fn* [a] (fn* [b] `(~a ~b c))) 1) 2)").to_readable_string(), "(1 2 c)");
}

#[test]
fn forward_declared_names_are_unbound_until_their_turn() {
    same(&value_of("(let* [a b b 1] a)"), &Value::Number(1));
    assert_eq!(value_of("(let* [a b b 1] (list a b))").to_readable_string(), "(1 1)");
    same(
        &value_of("(let* [f (fn* [n] (if (= n 0) :done (g (- n 1)))) g (fn* [n] (f n))] (f 3))"),
        &key("done"),
    );
}

#[test]
fn special_forms_without_head_are_errors() {
    let mut interpreter = interpreter();
    let none: Vec<Value> = Vec::new();
    assert_eq!(
        interpreter.eval_let(&none).err().unwrap().message(),
        "syntax error: expected further forms when parsing data"
    );
    assert_eq!(
        interpreter.eval_recur(&none).err().unwrap().message(),
        "list error: some failure: could not evaluate `recur`"
    );
    assert_eq!(
        interpreter.eval_do(&none).err().unwrap().message(),
        "list error: some failure: could not evaluate `do`"
    );
    assert_eq!(
        interpreter.eval_macroexpand(&none).err().unwrap().message(),
        "form invoked with incorrect arity: provided 0 arguments but expected 1 arguments"
    );
    assert_eq!(
        interpreter.eval_try(&none).err().unwrap().message(),
        "list error: some failure: could not evaluate `try*`"
    );
    same(&interpreter.dispatch(&none).ok().unwrap(), &list_with_values(vec![]));
    same(
        &interpreter.apply_primitive(Primitive::Plus, &none).ok().unwrap(),
        &Value::Number(0),
    );
    match value_of("(fn* [] 1)") {
        Value::Fn(f) => assert_eq!(
            interpreter.apply_fn(&f, &none).err().unwrap().message(),
            "list error: some failure: could not apply `fn*`"
        ),
        other => panic!("{}", other.to_readable_string()),
    }
}

#[test]
fn exceptions_in_flight() {
    assert!(sigil::maps::exception_is_thrown(&value_of("(throw \"test\")")));
    assert!(!sigil::maps::exception_is_thrown(&value_of("(ex-info \"test\" 1)")));
    assert!(!sigil::maps::exception_is_thrown(&value_of("(try* (throw \"test\") (catch* e e))")));
    assert!(sigil::maps::exception_is_thrown(&value_of("(try* (throw \"test\"))")));
    assert!(sigil::maps::exception_is_thrown(&value_of("(do (throw \"a\") 2)")));
}

#[test]
fn a_list_is_no_vector_for_the_tests() {
    assert!(!same_value(&value_of("'(1 2)"), &value_of("[1 2]")));
    assert!(same_value(&value_of("(= '(1 2) [1 2])"), &Value::Bool(true)));
    assert!(same_value(&value_of("{:a 1 :b [2]}"), &value_of("{:b [2] :a 1}")));
    assert!(!same_value(&value_of("{:a 1 :b [2]}"), &value_of("{:b (list 2) :a 1}")));
}

#[test]
fn swap_refusals_change_nothing() {
    let mut interpreter = interpreter();
    run(&mut interpreter, "(def! a (atom 3))").ok().unwrap();
    assert_eq!(
        run(&mut interpreter, "(swap! a)").err().unwrap().message(),
        "list error: some failure: wrong arity"
    );
    assert_eq!(
        run(&mut interpreter, "(swap! 3 inc)").err().unwrap().message(),
        "list error: some failure: incorrect argument"
    );
    assert_eq!(
        run(&mut interpreter, "(swap! a 3)").err().unwrap().message(),
        "list error: some failure: incorrect argument"
    );
    same(&run(&mut interpreter, "(deref a)").ok().unwrap(), &Value::Number(3));
}

#[test]
fn a_key_keeps_its_place_when_its_value_changes() {
    assert_eq!(
        value_of("(assoc {:a 1 :b 2} :a 3)").to_readable_string(),
        "{:a 3, :b 2}"
    );
    assert_eq!(
        value_of("(assoc {:a 1 :b 2} :c 3 :a 4)").to_readable_string(),
        "{:a 4, :b 2, :c 3}"
    );
    assert_eq!(value_of("{:a 1 :b 2 :a 3}").to_readable_string(), "{:a 3, :b 2}");
    assert_eq!(value_of("(dissoc {:a 1 :b 2 :c 3} :b)").to_readable_string(), "{:a 1, :c 3}");
    assert_eq!(value_of("(conj #{1 2} 2 3 1)").to_readable_string(), "#{1 2 3}");
    assert_eq!(value_of("(set [1 2 1 3 2])").to_readable_string(), "#{1 2 3}");
}
