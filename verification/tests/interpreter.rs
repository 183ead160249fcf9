use sigil::boot::{InterpreterBuilder, CORE_SOURCE};
use sigil::collections::{PersistentList, PersistentVector};
use sigil::equality::equal;
use sigil::errors::ReaderError;
use sigil::maps::exception;
use sigil::namespace::DEFAULT_NAME as DEFAULT_NAMESPACE;
use sigil::reader::read_values;
use sigil::state::Interpreter;
use sigil::value::Value::{Bool, HashMap, Keyword, List, Nil, Number, String, Symbol, Vector};
use sigil::value::{PersistentMap, Value};

/// What a test case expects: a value, an atom that holds a value, or a var
/// of a namespace that holds a value.
#[derive(Clone)]
enum Expected {
    Is(Value),
    Atom(Value),
    Var(Value, std::string::String, std::string::String),
}

impl From<Value> for Expected {
    fn from(v: Value) -> Expected {
        Expected::Is(v)
    }
}

fn read(input: &str) -> Result<Vec<Value>, ReaderError> {
    read_values(input)
}

fn list_with_values<I: IntoIterator<Item = Value>>(values: I) -> Value {
    sigil::maps::list_with_values(values.into_iter().collect())
}

fn vector_with_values<I: IntoIterator<Item = Value>>(values: I) -> Value {
    sigil::maps::vector_with_values(values.into_iter().collect())
}

fn map_with_values<I: IntoIterator<Item = (Value, Value)>>(values: I) -> Value {
    sigil::maps::map_with_values(values.into_iter().collect())
}

fn atom_with_value(value: Value) -> Expected {
    Expected::Atom(value)
}

fn var_with_value(value: Value, namespace: &str, identifier: &str) -> Expected {
    Expected::Var(value, namespace.to_string(), identifier.to_string())
}

/// Whether a value is the expected one: of the same kind, with the same
/// items in the same places. A list is no vector. Maps and sets are the
/// same when they hold the same entries or members, in any order. The
/// mark that an exception is in flight is not compared: expected
/// exceptions are built without it.
fn same_value(a: &Value, b: &Value) -> bool {
    fn same_run(xs: &[Value], ys: &[Value]) -> bool {
        xs.len() == ys.len() && xs.iter().zip(ys.iter()).all(|(x, y)| same_value(x, y))
    }
    fn within(xs: &[Value], ys: &[Value], width: usize) -> bool {
        xs.len() == ys.len()
            && xs.chunks(width).all(|x| ys.chunks(width).any(|y| same_run(x, y)))
    }
    match (a, b) {
        (Value::List(x), Value::List(y)) => same_run(&x.items(), &y.items()),
        (Value::Vector(x), Value::Vector(y)) => same_run(&x.items(), &y.items()),
        (Value::Recur(x), Value::Recur(y)) => same_run(&x.items(), &y.items()),
        (Value::HashMap(x), Value::HashMap(y)) => {
            within(&x.entries.items(), &y.entries.items(), 2)
        }
        (Value::HashSet(x), Value::HashSet(y)) => {
            within(&x.members.items(), &y.members.items(), 1)
        }
        (Value::Exception(x), Value::Exception(y)) => {
            x.message == y.message && same_value(&x.data, &y.data)
        }
        (Value::List(_), _)
        | (Value::Vector(_), _)
        | (Value::Recur(_), _)
        | (Value::HashMap(_), _)
        | (Value::HashSet(_), _)
        | (Value::Exception(_), _) => false,
        _ => equal(a, b),
    }
}

fn agrees(interpreter: &Interpreter, result: &Value, expected: &Expected) -> bool {
    match expected {
        Expected::Is(v) => same_value(result, v),
        Expected::Atom(v) => match result {
            Value::Atom(cell) => same_value(&interpreter.atom_get(*cell), v),
            _ => false,
        },
        Expected::Var(v, namespace, identifier) => match result {
            Value::Var(var) => {
                var.namespace == *namespace
                    && var.identifier == *identifier
                    && match interpreter.var_get(var.cell) {
                        Some(held) => same_value(held, v),
                        None => false,
                    }
            }
            _ => false,
        },
    }
}

fn run_eval_test<T: Clone + Into<Expected>>(test_cases: &[(&str, T)]) {
    for (input, expected) in test_cases {
        let expected: Expected = expected.clone().into();
        let forms = match read(input) {
            Ok(forms) => forms,
            Err(e) => panic!("could not read `{}`: {}", input, e.message()),
        };
        let mut interpreter = match InterpreterBuilder::new().build_with_core_source(CORE_SOURCE) {
            Ok(interpreter) => interpreter,
            Err(e) => panic!("could not build the interpreter: {}", e.message()),
        };
        let mut final_result: Option<Value> = None;
        for form in &forms {
            match interpreter.evaluate(form) {
                Ok(result) => {
                    final_result = Some(result);
                }
                Err(e) => panic!("could not evaluate `{}`: {}", input, e.message()),
            }
        }
        match final_result {
            Some(result) => assert!(
                agrees(&interpreter, &result, &expected),
                "`{}` gave {}",
                input,
                result.to_readable_string()
            ),
            None => panic!("`{}` holds no form", input),
        }
    }
}

#[test]
fn test_self_evaluating() {
    let test_cases = vec![
        ("nil", Nil),
        ("true", Bool(true)),
        ("false", Bool(false)),
        ("1337", Number(1337)),
        ("-1337", Number(-1337)),
        ("\"hi\"", String("hi".to_string())),
        (r#""""#, String("".to_string())),
        ("\"abc\"", String("abc".to_string())),
        ("\"abc   def\"", String("abc   def".to_string())),
        ("\"abc\\ndef\\nghi\"", String("abc\ndef\nghi".to_string())),
        ("\"abc\\def\\ghi\"", String("abc\\def\\ghi".to_string())),
        ("\" \\\\n \"", String(" \\n ".to_string())),
        (":hi", Keyword("hi".to_string(), None)),
        (
            ":foo/hi",
            Keyword("hi".to_string(), Some("foo".to_string())),
        ),
        ("()", List(PersistentList::new())),
        ("[]", Vector(PersistentVector::new())),
        ("{}", HashMap(PersistentMap::new())),
    ];
    run_eval_test(&test_cases);
}

#[test]
fn test_basic_apply() {
    let test_cases = vec![
        ("(+)", Number(0)),
        ("(+ 1)", Number(1)),
        ("(+ 1 10)", Number(11)),
        ("(+ 1 10 2)", Number(13)),
        ("(- 1)", Number(-1)),
        ("(- 10 9)", Number(1)),
        ("(- 10 20)", Number(-10)),
        ("(- 10 20 10)", Number(-20)),
        ("(*)", Number(1)),
        ("(* 2)", Number(2)),
        ("(* 2 3)", Number(6)),
        ("(* 2 3 1 1 1)", Number(6)),
        ("(/ 2)", Number(0)),
        ("(/ 1)", Number(1)),
        ("(/ 22 2)", Number(11)),
        ("(/ 22 2 1 1 1)", Number(11)),
        ("(/ 22 2 1 1 1)", Number(11)),
        ("(+ 2 (* 3 4))", Number(14)),
        ("(+ 5 (* 2 3))", Number(11)),
        ("(- (+ 5 (* 2 3)) 3)", Number(8)),
        ("(/ (- (+ 5 (* 2 3)) 3) 4)", Number(2)),
        ("(/ (- (+ 515 (* 87 311)) 302) 27)", Number(1010)),
        ("(* -3 6)", Number(-18)),
        ("(/ (- (+ 515 (* -87 311)) 296) 27)", Number(-994)),
        (
            "[1 2 (+ 1 2)]",
            vector_with_values(vec![Number(1), Number(2), Number(3)]),
        ),
        (
            "{\"a\" (+ 7 8)}",
            map_with_values(vec![(String("a".to_string()), Number(15))]),
        ),
    ];
    run_eval_test(&test_cases);
}

#[test]
fn test_basic_do() {
    let test_cases = vec![
        ("(do )", Nil),
        ("(do 1 2 3)", Number(3)),
        ("(do (do 1 2))", Number(2)),
        ("(do (prn 101))", Nil),
        ("(do (prn 101) 7)", Number(7)),
        ("(do (prn 101) (prn 102) (+ 1 2))", Number(3)),
        ("(do (def! a 6) 7 (+ a 8))", Number(14)),
        ("(do (def! a 6) 7 (+ a 8) a)", Number(6)),
        ("(def! DO (fn* [a] 7)) (DO 3)", Number(7)),
    ];
    run_eval_test(&test_cases);
}

#[test]
fn test_basic_def() {
    let test_cases = vec![
        (
            "(def! a 3)",
            var_with_value(Number(3), DEFAULT_NAMESPACE, "a"),
        ),
        ("(def! a 3) (+ a 1)", Number(4).into()),
        ("(def! a (+ 1 7)) (+ a 1)", Number(9).into()),
        (
            "(def! some-num 3)",
            var_with_value(Number(3), DEFAULT_NAMESPACE, "some-num"),
        ),
        (
            "(def! SOME-NUM 4)",
            var_with_value(Number(4), DEFAULT_NAMESPACE, "SOME-NUM"),
        ),
    ];
    run_eval_test(&test_cases);
}

#[test]
fn test_basic_let() {
    let test_cases = vec![
        ("(let* [] )", Nil),
        ("(let* [a 1] )", Nil),
        ("(let* [a 3] a)", Number(3)),
        ("(let* [b 3] (+ b 5))", Number(8)),
        ("(let* [a 3] (+ a (let* [c 5] c)))", Number(8)),
        ("(let* [a (+ 1 2)] (+ a (let* [c 5] c)))", Number(8)),
        ("(let* [a (+ 1 2)] (+ a (let* [a 5] a)))", Number(8)),
        ("(let* [p (+ 2 3) q (+ 2 p)] (+ p q))", Number(12)),
        ("(let* [a 3] (+ a (let* [a 5] a)))", Number(8)),
        ("(let* [a 3 b a] (+ b 5))", Number(8)),
        (
            "(let* [a 3 b 33] (+ a (let* [c 4] (+ c 1)) b 5))",
            Number(46),
        ),
        ("(def! a 1) (let* [a 3] a)", Number(3)),
        ("(def! a (let* [z 33] z)) a", Number(33)),
        ("(def! a (let* [z 33] z)) (let* [a 3] a)", Number(3)),
        ("(def! a (let* [z 33] z)) (let* [a 3] a) a", Number(33)),
        ("(def! a 1) (let* [a 3] a) a", Number(1)),
        ("(def! b 1) (let* [a 3] (+ a b))", Number(4)),
        (
            "(let* [a 5 b 6] [3 4 a [b 7] 8])",
            vector_with_values(vec![
                Number(3),
                Number(4),
                Number(5),
                vector_with_values(vec![Number(6), Number(7)]),
                Number(8),
            ]),
        ),
        (
            "(let* [cst (fn* [n] (if (= n 0) :success (cst (- n 1))))] (cst 1))",
            Keyword("success".to_string(), None),
        ),
        (
            "(let* [f (fn* [n] (if (= n 0) :success (g (- n 1)))) g (fn* [n] (f n))] (f 2))",
            Keyword("success".to_string(), None),
        ),
        (
            "(defn f [] (let* [cst (fn* [n] (if (= n 0) :success (cst (- n 1))))] (cst 10))) (f)",
            Keyword("success".to_string(), None),
        ),
    ];
    run_eval_test(&test_cases);
}

#[test]
fn test_basic_if() {
    let test_cases = vec![
        ("(if true 1 2)", Number(1)),
        ("(if true 1)", Number(1)),
        ("(if false 1 2)", Number(2)),
        ("(if false 7 false)", Bool(false)),
        ("(if true (+ 1 7) (+ 1 8))", Number(8)),
        ("(if false (+ 1 7) (+ 1 8))", Number(9)),
        ("(if false 2)", Nil),
        ("(if false (+ 1 7))", Nil),
        ("(if false (/ 1 0))", Nil),
        ("(if nil 1 2)", Number(2)),
        ("(if 0 1 2)", Number(1)),
        ("(if (list) 1 2)", Number(1)),
        ("(if (list 1 2 3) 1 2)", Number(1)),
        ("(= (list) nil)", Bool(false)),
        ("(if nil 2)", Nil),
        ("(if true 2)", Number(2)),
        ("(if false (/ 1 0))", Nil),
        ("(if nil (/ 1 0))", Nil),
        ("(let* [b nil] (if b 2 3))", Number(3)),
        ("(if (> (count (list 1 2 3)) 3) 89 78)", Number(78)),
        ("(if (>= (count (list 1 2 3)) 3) 89 78)", Number(89)),
        ("(if \"\" 7 8)", Number(7)),
        ("(if [] 7 8)", Number(7)),
    ];
    run_eval_test(&test_cases);
}

#[test]
fn test_basic_fn() {
    let test_cases = vec![
        ("((fn* [a] (+ a 1)) 23)", Number(24)),
        ("((fn* [a b] (+ a b)) 23 1)", Number(24)),
        ("((fn* [] (+ 4 3)) )", Number(7)),
        ("((fn* [f x] (f x)) (fn* [a] (+ 1 a)) 7)", Number(8)),
        ("((fn* [a] (+ a 1) 25) 23)", Number(25)),
        ("((fn* [a] (let* [b 2] (+ a b))) 23)", Number(25)),
        ("((fn* [a] (let* [a 2] (+ a a))) 23)", Number(4)),
        (
            "(def! inc (fn* [a] (+ a 1))) ((fn* [a] (inc a)) 1)",
            Number(2),
        ),
        ("((fn* [a] ((fn* [b] (+ b 1)) a)) 1)", Number(2)),
        ("((fn* [a] ((fn* [a] (+ a 1)) a)) 1)", Number(2)),
        ("((fn* [] ((fn* [] ((fn* [] 13))))))", Number(13)),
        (
            "(def! factorial (fn* [n] (if (< n 2) 1 (* n (factorial (- n 1)))))) (factorial 8)",
            Number(40320),
        ),
        (
            "(def! fibo (fn* [N] (if (= N 0) 1 (if (= N 1) 1 (+ (fibo (- N 1)) (fibo (- N 2))))))) (fibo 1)",
            Number(1),
        ),
        (
            "(def! fibo (fn* [N] (if (= N 0) 1 (if (= N 1) 1 (+ (fibo (- N 1)) (fibo (- N 2))))))) (fibo 2)",
            Number(2),
        ),
        (
            "(def! fibo (fn* [N] (if (= N 0) 1 (if (= N 1) 1 (+ (fibo (- N 1)) (fibo (- N 2))))))) (fibo 4)",
            Number(5),
        ),
        ("(def! f (fn* [a] (+ a 1))) (f 23)", Number(24)),
        (
            "(def! b 12) (def! f (fn* [a] (+ a b))) (def! b 22) (f 1)",
            Number(23),
        ),
        (
            "(def! b 12) (def! f (fn* [a] ((fn* [] (+ a b))))) (def! b 22) (f 1)",
            Number(23),
        ),
        (
            "(def! gen-plus5 (fn* [] (fn* [b] (+ 5 b)))) (def! plus5 (gen-plus5)) (plus5 7)",
            Number(12),
        ),
        ("(((fn* [a] (fn* [b] (+ a b))) 5) 7)", Number(12)),
        ("(def! gen-plus-x (fn* [x] (fn* [b] (+ x b)))) (def! plus7 (gen-plus-x 7)) (plus7 8)", Number(15)),
        ("((((fn* [a] (fn* [b] (fn* [c] (+ a b c)))) 1) 2) 3)", Number(6)),
        ("(((fn* [a] (fn* [b] (* b ((fn* [c] (+ a c)) 32)))) 1) 2)", Number(66)),
        ("(def! f (fn* [a] (fn* [b] (+ a b)))) ((first (let* [x 12] (map (fn* [_] (f x)) '(10000000)))) 27)", Number(39))
    ];
    run_eval_test(&test_cases);
}

#[test]
fn test_basic_loop_recur() {
    let test_cases = vec![
        ("(loop* [i 12] i)", Number(12)),
        ("(loop* [i 12])", Nil),
        ("(loop* [i 0] (if (< i 5) (recur (+ i 1)) i))", Number(5)),
        ("(def! factorial (fn* [n] (loop* [n n acc 1] (if (< n 1) acc (recur (- n 1) (* acc n)))))) (factorial 20)", Number(2432902008176640000)),
        (
            "(def! inc (fn* [a] (+ a 1))) (loop* [i 0] (if (< i 5) (recur (inc i)) i))",
            Number(5),
        ),
        // // NOTE: the following will overflow the stack
        // (
        //     "(def! f (fn* [i] (if (< i 400) (f (+ 1 i)) i))) (f 0)",
        //     Number(400),
        // ),
        // // but, the loop/recur form is stack efficient
        (
            "(def! f (fn* [i] (loop* [n i] (if (< n 400) (recur (+ 1 n)) n)))) (f 0)",
            Number(400),
        ),
    ];
    run_eval_test(&test_cases);
}

#[test]
fn test_basic_atoms() {
    let test_cases = vec![
        ("(atom 5)", atom_with_value(Number(5))),
        ("(atom? (atom 5))", Bool(true).into()),
        ("(atom? nil)", Bool(false).into()),
        ("(atom? 1)", Bool(false).into()),
        ("(def! a (atom 5)) (deref a)", Number(5).into()),
        ("(def! a (atom 5)) @a", Number(5).into()),
        ("(def! a (atom (fn* [a] (+ a 1)))) (@a 4)", Number(5).into()),
        ("(def! a (atom 5)) (reset! a 10)", Number(10).into()),
        ("(def! a (atom 5)) (reset! a 10) @a", Number(10).into()),
        (
            "(def! a (atom 5)) (def! inc (fn* [x] (+ x 1))) (swap! a inc)",
            Number(6).into(),
        ),
        ("(def! a (atom 5)) (swap! a + 1 2 3 4 5)", Number(20).into()),
        (
            "(def! a (atom 5)) (swap! a + 1 2 3 4 5) (deref a)",
            Number(20).into(),
        ),
        (
            "(def! a (atom 5)) (swap! a + 1 2 3 4 5) (reset! a 10)",
            Number(10).into(),
        ),
        (
            "(def! a (atom 5)) (swap! a + 1 2 3 4 5) (reset! a 10) (deref a)",
            Number(10).into(),
        ),
        (
            "(def! a (atom 7)) (def! f (fn* [] (swap! a inc))) (f) (f)",
            Number(9).into(),
        ),
        (
            "(def! g (let* [a (atom 0)] (fn* [] (swap! a inc)))) (def! a (atom 1)) (g) (g) (g)",
            Number(3).into(),
        ),
        (
            "(def! e (atom {:+ +})) (swap! e assoc :- -) ((get @e :+) 7 8)",
            Number(15).into(),
        ),
        (
            "(def! e (atom {:+ +})) (swap! e assoc :- -) ((get @e :-) 11 8)",
            Number(3).into(),
        ),
        (
            "(def! e (atom {:+ +})) (swap! e assoc :- -) (swap! e assoc :foo ()) (get @e :foo)",
            list_with_values(vec![]).into(),
        ),
        (
            "(def! e (atom {:+ +})) (swap! e assoc :- -) (swap! e assoc :bar '(1 2 3)) (get @e :bar)",
            list_with_values(vec![Number(1), Number(2), Number(3)]).into(),
        ),
    ];
    run_eval_test(&test_cases);
}

#[test]
fn test_basic_quote() {
    let test_cases = vec![
        ("(quote 5)", Number(5)),
        (
            "(quote (1 2 3))",
            list_with_values([Number(1), Number(2), Number(3)].iter().cloned()),
        ),
        (
            "(quote (1 2 (into+ [] foo :baz/bar)))",
            list_with_values(
                [
                    Number(1),
                    Number(2),
                    list_with_values(
                        [
                            Symbol("into+".to_string(), None),
                            Vector(PersistentVector::new()),
                            Symbol("foo".to_string(), None),
                            Keyword("bar".to_string(), Some("baz".to_string())),
                        ]
                        .iter()
                        .cloned(),
                    ),
                ]
                .iter()
                .cloned(),
            ),
        ),
    ];
    run_eval_test(&test_cases);
}

#[test]
fn test_basic_quasiquote() {
    let test_cases = vec![
        ("(quasiquote nil)", Nil),
        ("(quasiquote ())", list_with_values(vec![])),
        ("(quasiquote 7)", Number(7)),
        ("(quasiquote a)", Symbol("a".to_string(), None)),
        (
            "(quasiquote {:a b})",
            map_with_values(vec![(
                Keyword("a".to_string(), None),
                Symbol("b".to_string(), None),
            )]),
        ),
        (
            "(def! lst '(b c)) `(a lst d)",
            read("(a lst d)")
                .expect("example is correct")
                .into_iter()
                .nth(0)
                .expect("some"),
        ),
        (
            "`(1 2 (3 4))",
            read("(1 2 (3 4))")
                .expect("example is correct")
                .into_iter()
                .nth(0)
                .expect("some"),
        ),
        (
            "`(nil)",
            read("(nil)")
                .expect("example is correct")
                .into_iter()
                .nth(0)
                .expect("some"),
        ),
        (
            "`(1 ())",
            read("(1 ())")
                .expect("example is correct")
                .into_iter()
                .nth(0)
                .expect("some"),
        ),
        (
            "`(() 1)",
            read("(() 1)")
                .expect("example is correct")
                .into_iter()
                .nth(0)
                .expect("some"),
        ),
        (
            "`(2 () 1)",
            read("(2 () 1)")
                .expect("example is correct")
                .into_iter()
                .nth(0)
                .expect("some"),
        ),
        (
            "`(())",
            read("(())")
                .expect("example is correct")
                .into_iter()
                .nth(0)
                .expect("some"),
        ),
        (
            "`(f () g (h) i (j k) l)",
            read("(f () g (h) i (j k) l)")
                .expect("example is correct")
                .into_iter()
                .nth(0)
                .expect("some"),
        ),
        ("`~7", Number(7)),
        ("(def! a 8) `a", Symbol("a".to_string(), None)),
        ("(def! a 8) `~a", Number(8)),
        (
            "`(1 a 3)",
            read("(1 a 3)")
                .expect("example is correct")
                .into_iter()
                .nth(0)
                .expect("some"),
        ),
        (
            "(def! a 8) `(1 ~a 3)",
            read("(1 8 3)")
                .expect("example is correct")
                .into_iter()
                .nth(0)
                .expect("some"),
        ),
        (
            "(def! b '(1 :b :d)) `(1 b 3)",
            read("(1 b 3)")
                .expect("example is correct")
                .into_iter()
                .nth(0)
                .expect("some"),
        ),
        (
            "(def! b '(1 :b :d)) `(1 ~b 3)",
            read("(1 (1 :b :d) 3)")
                .expect("example is correct")
                .into_iter()
                .nth(0)
                .expect("some"),
        ),
        (
            "`(~1 ~2)",
            read("(1 2)")
                .expect("example is correct")
                .into_iter()
                .nth(0)
                .expect("some"),
        ),
        ("(let* [x 0] `~x)", Number(0)),
        (
            "(def! lst '(b c)) `(a ~lst d)",
            read("(a (b c) d)")
                .expect("example is correct")
                .into_iter()
                .nth(0)
                .expect("some"),
        ),
        (
            "(def! lst '(b c)) `(a ~@lst d)",
            read("(a b c d)")
                .expect("example is correct")
                .into_iter()
                .nth(0)
                .expect("some"),
        ),
        (
            "(def! lst '(b c)) `(a ~@lst)",
            read("(a b c)")
                .expect("example is correct")
                .into_iter()
                .nth(0)
                .expect("some"),
        ),
        (
            "(def! lst '(b c)) `(~@lst 2)",
            read("(b c 2)")
                .expect("example is correct")
                .into_iter()
                .nth(0)
                .expect("some"),
        ),
        (
            "(def! lst '(b c)) `(~@lst ~@lst)",
            read("(b c b c)")
                .expect("example is correct")
                .into_iter()
                .nth(0)
                .expect("some"),
        ),
        (
            "((fn* [q] (quasiquote ((unquote q) (quote (unquote q))))) (quote (fn* [q] (quasiquote ((unquote q) (quote (unquote q)))))))",
            read("((fn* [q] (quasiquote ((unquote q) (quote (unquote q))))) (quote (fn* [q] (quasiquote ((unquote q) (quote (unquote q)))))))")
                .expect("example is correct")
                .into_iter()
                .nth(0)
                .expect("some"),
        ),
        (
            "`[]",
            read("[]")
                .expect("example is correct")
                .into_iter()
                .nth(0)
                .expect("some"),
        ),
        (
            "`[[]]",
            read("[[]]")
                .expect("example is correct")
                .into_iter()
                .nth(0)
                .expect("some"),
        ),
        (
            "`[()]",
            read("[()]")
                .expect("example is correct")
                .into_iter()
                .nth(0)
                .expect("some"),
        ),
        (
            "`([])",
            read("([])")
                .expect("example is correct")
                .into_iter()
                .nth(0)
                .expect("some"),
        ),
        (
            "(def! a 8) `[1 a 3]",
            read("[1 a 3]")
                .expect("example is correct")
                .into_iter()
                .nth(0)
                .expect("some"),
        ),
        (
            "`[a [] b [c] d [e f] g]",
            read("[a [] b [c] d [e f] g]")
                .expect("example is correct")
                .into_iter()
                .nth(0)
                .expect("some"),
        ),
        (
            "(def! a 8) `[~a]",
            read("[8]")
                .expect("example is correct")
                .into_iter()
                .nth(0)
                .expect("some"),
        ),
        (
            "(def! a 8) `[(~a)]",
            read("[(8)]")
                .expect("example is correct")
                .into_iter()
                .nth(0)
                .expect("some"),
        ),
        (
            "(def! a 8) `([~a])",
            read("([8])")
                .expect("example is correct")
                .into_iter()
                .nth(0)
                .expect("some"),
        ),
        (
            "(def! a 8) `[a ~a a]",
            read("[a 8 a]")
                .expect("example is correct")
                .into_iter()
                .nth(0)
                .expect("some"),
        ),
        (
            "(def! a 8) `([a ~a a])",
            read("([a 8 a])")
                .expect("example is correct")
                .into_iter()
                .nth(0)
                .expect("some"),
        ),
        (
            "(def! a 8) `[(a ~a a)]",
            read("[(a 8 a)]")
                .expect("example is correct")
                .into_iter()
                .nth(0)
                .expect("some"),
        ),
        (
            "(def! c '(1 :b :d)) `[~@c]",
            read("[1 :b :d]")
                .expect("example is correct")
                .into_iter()
                .nth(0)
                .expect("some"),
        ),
        (
            "(def! c '(1 :b :d)) `[(~@c)]",
            read("[(1 :b :d)]")
                .expect("example is correct")
                .into_iter()
                .nth(0)
                .expect("some"),
        ),
        (
            "(def! c '(1 :b :d)) `([~@c])",
            read("([1 :b :d])")
                .expect("example is correct")
                .into_iter()
                .nth(0)
                .expect("some"),
        ),
        (
            "(def! c '(1 :b :d)) `[1 ~@c 3]",
            read("[1 1 :b :d 3]")
                .expect("example is correct")
                .into_iter()
                .nth(0)
                .expect("some"),
        ),
        (
            "(def! c '(1 :b :d)) `([1 ~@c 3])",
            read("([1 1 :b :d 3])")
                .expect("example is correct")
                .into_iter()
                .nth(0)
                .expect("some"),
        ),
        (
            "(def! c '(1 :b :d)) `[(1 ~@c 3)]",
            read("[(1 1 :b :d 3)]")
                .expect("example is correct")
                .into_iter()
                .nth(0)
                .expect("some"),
        ),
        (
            "`(0 unquote)",
            read("(0 unquote)")
                .expect("example is correct")
                .into_iter()
                .nth(0)
                .expect("some"),
        ),
        (
            "`(0 splice-unquote)",
            read("(0 splice-unquote)")
                .expect("example is correct")
                .into_iter()
                .nth(0)
                .expect("some"),
        ),
        (
            "`[unquote 0]",
            read("[unquote 0]")
                .expect("example is correct")
                .into_iter()
                .nth(0)
                .expect("some"),
        ),
        (
            "`[splice-unquote 0]",
            read("[splice-unquote 0]")
                .expect("example is correct")
                .into_iter()
                .nth(0)
                .expect("some"),
        ),
    ];
    run_eval_test(&test_cases);
}

#[test]
fn test_basic_macros() {
    let test_cases = vec![
        ("(defmacro! one (fn* [] 1)) (one)", Number(1)),
        ("(defmacro! two (fn* [] 2)) (two)", Number(2)),
        ("(defmacro! unless (fn* [pred a b] `(if ~pred ~b ~a))) (unless false 7 8)", Number(7)),
        ("(defmacro! unless (fn* [pred a b] `(if ~pred ~b ~a))) (unless true 7 8)", Number(8)),
        ("(defmacro! unless (fn* [pred a b] (list 'if (list 'not pred) a b))) (unless false 7 8)", Number(7)),
        ("(defmacro! unless (fn* [pred a b] (list 'if (list 'not pred) a b))) (unless true 7 8)", Number(8)),
        ("(defmacro! one (fn* [] 1)) (macroexpand (one))", Number(1)),
        ("(defmacro! unless (fn* [pred a b] `(if ~pred ~b ~a))) (macroexpand '(unless PRED A B))",
            read("(if PRED B A)")
                .expect("example is correct")
                .into_iter()
                .nth(0)
                .expect("some")
        ),
        ("(defmacro! unless (fn* [pred a b] (list 'if (list 'not pred) a b))) (macroexpand '(unless PRED A B))",
            read("(if (not PRED) A B)")
                .expect("example is correct")
                .into_iter()
                .nth(0)
                .expect("some")
        ),
        ("(defmacro! unless (fn* [pred a b] (list 'if (list 'not pred) a b))) (macroexpand '(unless 2 3 4))",
            read("(if (not 2) 3 4)")
                .expect("example is correct")
                .into_iter()
                .nth(0)
                .expect("some")
        ),
        ("(defmacro! identity (fn* [x] x)) (let* [a 123] (macroexpand (identity a)))",
            Number(123),
        ),
        ("(defmacro! identity (fn* [x] x)) (let* [a 123] (identity a))",
            Number(123),
        ),
        ("(macroexpand (cond))", Nil),
        ("(cond)", Nil),
        ("(macroexpand '(cond X Y))",
            read("(if X Y (cond))")
                .expect("example is correct")
                .into_iter()
                .nth(0)
                .expect("some")
        ),
        ("(cond true 7)", Number(7)),
        ("(cond true 7 true 8)", Number(7)),
        ("(cond false 7)", Nil),
        ("(cond false 7 true 8)", Number(8)),
        ("(cond false 7 false 8 :else 9)", Number(9)),
        ("(cond false 7 (= 2 2) 8 :else 9)", Number(8)),
        ("(cond false 7 false 8 false 9)", Nil),
        ("(let* [x (cond false :no true :yes)] x)", Keyword("yes".to_string(), None)),
        ("(macroexpand '(cond X Y Z T))",
            read("(if X Y (cond Z T))")
                .expect("example is correct")
                .into_iter()
                .nth(0)
                .expect("some")
        ),
        ("(def! x 2) (defmacro! a (fn* [] x)) (a)", Number(2)),
        ("(def! x 2) (defmacro! a (fn* [] x)) (let* [x 3] (a))", Number(2)),
        ("(def! f (fn* [x] (number? x))) (defmacro! m f) [(f (+ 1 1)) (m (+ 1 1))]", vector_with_values(vec![Bool(true), Bool(false)])),
    ];
    run_eval_test(&test_cases);
}

#[test]
fn test_basic_try_catch() {
    let basic_exc = exception("", &String("test".to_string()));
    let exc = exception(
        "test",
        &map_with_values(vec![(
            Keyword("cause".to_string(), None),
            String("no memory".to_string()),
        )]),
    );
    let test_cases = vec![
        ( "(throw \"test\")", basic_exc),
        ( "(throw {:msg :foo})", exception("", &map_with_values(vec![(Keyword("msg".to_string(), None), Keyword("foo".to_string(), None))]))),
        ( "(try* (throw '(1 2 3)) (catch* e e))", exception("", &list_with_values(vec![Number(1), Number(2), Number(3)]))),
        (
            "(try* 22)",
            Number(22),
        ),
        (
            "(try* (prn 222) 22)",
            Number(22),
        ),
        (
            "(try* (ex-info \"test\" {:cause \"no memory\"}))",
            exc.clone(),
        ),
        (
            "(try* 123 (catch* e 0))",
            Number(123),
        ),
        (
            "(try* (ex-info \"test\" {:cause \"no memory\"}) (catch* e 0))",
            exc,
        ),
        (
            "(try* (throw (ex-info \"test\" {:cause \"no memory\"})) (catch* e (str e)))",
            String("exception: test, {:cause \"no memory\"}".to_string()),
        ),
        (
            "(try* (throw (ex-info \"test\" {:cause \"no memory\"})) (catch* e 999))",
            Number(999),
        ),
        (
            // must throw exception to change control flow
            "(try* (ex-info \"first\" {}) (ex-info \"test\" {:cause \"no memory\"}) 22 (catch* e e))",
            Number(22),
        ),
        (
            // must throw exception to change control flow
            "(try* (ex-info \"first\" {}) (ex-info \"test\" {:cause \"no memory\"}) (catch* e 22))",
            exception(
                "test",
                &map_with_values(
                    [(
                        Keyword("cause".to_string(), None),
                        String("no memory".to_string()),
                    )]
                    .iter()
                    .cloned(),
                ),
            ),
        ),
        (
            "(try* (throw (ex-info \"first\" {})) (ex-info \"test\" {:cause \"no memory\"}) (catch* e e))",
            exception(
                "first",
                &HashMap(PersistentMap::new()),
            ),
        ),
        (
            "(try* (throw (ex-info \"first\" {})) (ex-info \"test\" {:cause \"no memory\"}) (catch* e (prn e) 22))",
            Number(22),
        ),
        (
            "(def! f (fn* [] (try* (throw (ex-info \"test\" {:cause 22})) (catch* e (prn e) 22)))) (f)",
            Number(22),
        ),
        (
            "(def! f (fn* [] (try* (throw (ex-info \"test\" {:cause 'foo})) (catch* e (prn e) 22)))) (f)",
            Number(22),
        ),
        (
            "(try* (do 1 2 (try* (do 3 4 (throw :e1)) (catch* e (throw (ex-info \"foo\" :bar))))) (catch* e :outer))",
            Keyword("outer".to_string(), None),
        ),
        (
            "(try* (do (try* \"t1\" (catch* e \"c1\")) (throw \"e1\")) (catch* e \"c2\"))",
            String("c2".to_string()),
        ),
        (
            "(try* (try* (throw \"e1\") (catch* e (throw \"e2\"))) (catch* e \"c2\"))",
            String("c2".to_string()),
        ),
        (
            "(def! f (fn* [a] ((fn* [] (try* (throw (ex-info \"test\" {:cause 22})) (catch* e (prn e) a)))))) (f 2222)",
            Number(2222),
        ),
        (
            "(((fn* [a] (fn* [] (try* (throw (ex-info \"\" {:foo 2})) (catch* e (prn e) a)))) 2222))",
            Number(2222),
        ),
    ];
    run_eval_test(&test_cases);
}

#[test]
fn test_basic_var_args() {
    let test_cases = vec![
        ("((fn* [& rest] (first rest)))", Nil),
        ("((fn* [& rest] (first rest)) 5)", Number(5)),
        ("((fn* [& rest] (first rest)) 5 6 7)", Number(5)),
        ("((fn* [& rest] (last rest)) 5 6 7)", Number(7)),
        ("((fn* [& rest] (nth rest 1)) 5 6 7)", Number(6)),
        ("((fn* [& rest] (count rest)))", Number(0)),
        ("((fn* [& rest] (count rest)) 1)", Number(1)),
        ("((fn* [& rest] (count rest)) 1 2 3)", Number(3)),
        ("((fn* [& rest] (list? rest)) 1 2 3)", Bool(true)),
        ("((fn* [& rest] (list? rest)))", Bool(true)),
        ("((fn* [a & rest] (count rest)) 1 2 3)", Number(2)),
        ("((fn* [a & rest] (count rest)) 3)", Number(0)),
        ("((fn* [a & rest] (list? rest)) 3)", Bool(true)),
        ("((fn* [a b & rest] (apply + a b rest)) 1 2 3)", Number(6)),
        (
            "(def! f (fn* [a & rest] (count rest))) (f 1 2 3)",
            Number(2),
        ),
        (
            "(def! f (fn* [a b & rest] (apply + a b rest))) (f 1 2 3 4)",
            Number(10),
        ),
    ];
    run_eval_test(&test_cases);
}

#[test]
fn test_basic_interpreter() {
    let test_cases = vec![
        ("(list? *command-line-args*)", Bool(true)),
        ("*command-line-args*", list_with_values(vec![])),
    ];
    run_eval_test(&test_cases);
}
