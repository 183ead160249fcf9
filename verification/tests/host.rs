use sigil::boot::{InterpreterBuilder, CORE_SOURCE};
use sigil::errors::EvaluationError;
use sigil::host::Attempt;
use sigil::reader::read_values;
use sigil::state::{Interpreter, Want};
use sigil::value::Value;

fn fresh() -> Interpreter {
    match InterpreterBuilder::new().build_with_core_source(CORE_SOURCE) {
        Ok(interpreter) => interpreter,
        Err(e) => panic!("could not build the interpreter: {}", e.message()),
    }
}

fn form_of(source: &str) -> Value {
    match read_values(source) {
        Ok(mut forms) => {
            assert_eq!(forms.len(), 1);
            forms.remove(0)
        }
        Err(e) => panic!("could not read `{}`: {}", source, e.message()),
    }
}

/// A host with files, lines of input and a clock that steps by one: it
/// supplies what an evaluation stopped for and evaluates again, and gives
/// the result with what was printed, piece by piece.
fn serve(
    interpreter: &mut Interpreter,
    source: &str,
    files: &[(&str, &str)],
    lines: &[&str],
    start: i64,
) -> (Result<Value, EvaluationError>, Vec<String>) {
    let form = form_of(source);
    interpreter.live = true;
    let mut pieces = Vec::new();
    let mut shown = 0;
    let mut next_line = 0;
    let mut time = start;
    loop {
        let (mut after, attempt) = interpreter.attempt(&form);
        if after.output.len() > shown {
            pieces.push(after.output.iter().skip(shown).collect());
            shown = after.output.len();
        }
        let result = match attempt {
            Attempt::Ended(result) => result,
            Attempt::Stopped(want, e) => {
                let supplied = match &want {
                    Want::File(path) => match files.iter().find(|(p, _)| p == path) {
                        Some((_, contents)) => {
                            interpreter.supply_file(path, contents.to_string());
                            true
                        }
                        None => false,
                    },
                    Want::Line => {
                        if next_line < lines.len() {
                            interpreter.supply_line(lines[next_line].to_string());
                            next_line += 1;
                        } else {
                            interpreter.ended = true;
                        }
                        true
                    }
                    Want::Moment => {
                        interpreter.supply_moment(time);
                        time += 1;
                        true
                    }
                    Want::Call(0, operands) => match operands.as_slice() {
                        [Value::Number(n)] => {
                            interpreter.supply_answer(Value::Number(2 * n));
                            true
                        }
                        _ => false,
                    },
                    Want::Call(1, operands) => {
                        interpreter.supply_answer(Value::Number(operands.len() as i64));
                        true
                    }
                    Want::Call(_, _) => false,
                    Want::Nothing => false,
                };
                if supplied {
                    continue;
                }
                Err(e)
            }
        };
        after.take_output();
        after.wanted = Want::Nothing;
        *interpreter = after;
        return (result, pieces);
    }
}

#[test]
fn a_missing_file_is_wanted() {
    let mut interpreter = fresh();
    let before = interpreter.duplicate();
    let form = form_of("(slurp \"notes.txt\")");
    let failed = interpreter.evaluate(&form);
    assert_eq!(
        failed.err().unwrap().message(),
        "interpreter error: io error: file not found: notes.txt"
    );
    assert!(matches!(&interpreter.wanted, Want::File(path) if path == "notes.txt"));
    let mut again = before.duplicate();
    again.supply_file("notes.txt", "remember".to_string());
    assert!(matches!(again.wanted, Want::Nothing));
    let read = again.evaluate(&form).ok().unwrap();
    assert_eq!(read.to_readable_string(), "\"remember\"");
    assert!(matches!(again.wanted, Want::Nothing));
}

#[test]
fn a_line_is_wanted_only_from_a_live_host() {
    let form = form_of("(readline \"name? \")");
    let mut quiet = fresh();
    assert_eq!(quiet.evaluate(&form).ok().unwrap().to_readable_string(), "nil");
    assert_eq!(quiet.take_output(), "name? \n");
    assert!(matches!(quiet.wanted, Want::Nothing));

    let mut live = fresh();
    live.live = true;
    let before = live.duplicate();
    assert_eq!(
        live.evaluate(&form).err().unwrap().message(),
        "interpreter error: io error: no line of input yet"
    );
    assert!(matches!(live.wanted, Want::Line));
    assert_eq!(live.take_output(), "name? ");

    let mut supplied = before.duplicate();
    supplied.supply_line("Ada".to_string());
    assert_eq!(supplied.evaluate(&form).ok().unwrap().to_readable_string(), "\"Ada\"");
    assert_eq!(supplied.take_output(), "name? ");
    assert!(supplied.lines.is_empty());

    let mut ended = before.duplicate();
    ended.ended = true;
    assert_eq!(ended.evaluate(&form).ok().unwrap().to_readable_string(), "nil");
    assert_eq!(ended.take_output(), "name? \n");
}

#[test]
fn the_time_is_wanted_only_from_a_live_host() {
    let form = form_of("(list (time-ms) (time-ms))");
    let mut quiet = fresh();
    quiet.clock = 77;
    assert_eq!(quiet.evaluate(&form).ok().unwrap().to_readable_string(), "(77 77)");

    let mut live = fresh();
    live.live = true;
    live.clock = 77;
    let before = live.duplicate();
    assert_eq!(
        live.evaluate(&form).err().unwrap().message(),
        "interpreter error: io error: the time is not known yet"
    );
    assert!(matches!(live.wanted, Want::Moment));

    let mut once = before.duplicate();
    once.supply_moment(5);
    assert!(once.evaluate(&form).is_err());
    assert!(matches!(once.wanted, Want::Moment));

    let mut twice = before.duplicate();
    twice.supply_moment(5);
    twice.supply_moment(9);
    assert_eq!(twice.evaluate(&form).ok().unwrap().to_readable_string(), "(5 9)");
    assert!(twice.moments.is_empty());
    assert!(matches!(twice.wanted, Want::Nothing));
}

#[test]
fn a_copy_is_another_interpreter() {
    let mut interpreter = fresh();
    interpreter.evaluate(&form_of("(def! a (atom 1))")).ok().unwrap();
    let mut copy = interpreter.duplicate();
    copy.evaluate(&form_of("(reset! a 2)")).ok().unwrap();
    copy.evaluate(&form_of("(def! b 3)")).ok().unwrap();
    assert_eq!(
        copy.evaluate(&form_of("(list (deref a) b)")).ok().unwrap().to_readable_string(),
        "(2 3)"
    );
    assert_eq!(
        interpreter.evaluate(&form_of("(deref a)")).ok().unwrap().to_readable_string(),
        "1"
    );
    assert!(interpreter.evaluate(&form_of("b")).is_err());
}

#[test]
fn a_host_that_answers_on_demand() {
    let mut interpreter = fresh();
    let files = [
        ("outer.lisp", "(def! inner (load-file \"inner.lisp\")) (println \"outer done\")"),
        ("inner.lisp", "(println \"inner\") (def! from-inner 41)"),
    ];
    let (result, pieces) = serve(
        &mut interpreter,
        "(do (println \"start\") \
             (load-file (str \"outer\" \".lisp\")) \
             (let* [name (readline \"name? \") t0 (time-ms) t1 (time-ms)] \
               (println \"hello\" name) \
               (list name (readline \"more? \") (- t1 t0) (+ from-inner 1))))",
        &files,
        &["Ada"],
        1000,
    );
    assert_eq!(pieces.concat(), "start\ninner\nouter done\nname? hello Ada\nmore? \n");
    assert_eq!(pieces[0], "start\n");
    assert!(pieces.iter().any(|p| p.ends_with("name? ")));
    assert_eq!(result.ok().unwrap().to_readable_string(), "(\"Ada\" nil 1 42)");
    assert!(matches!(interpreter.wanted, Want::Nothing));
}

#[test]
fn a_file_that_the_host_lacks_stays_an_error() {
    let mut interpreter = fresh();
    let (result, pieces) = serve(
        &mut interpreter,
        "(do (println \"before\") (try* (slurp \"nowhere\") (catch* e \"caught\")))",
        &[],
        &[],
        0,
    );
    assert_eq!(pieces.concat(), "before\n");
    assert_eq!(
        result.err().unwrap().message(),
        "interpreter error: io error: file not found: nowhere"
    );
}

#[test]
fn a_procedure_of_the_host() {
    let mut interpreter = fresh();
    interpreter.register_primitive("double", 0).ok().unwrap();
    interpreter.register_primitive("how-many", 1).ok().unwrap();
    interpreter.register_primitive("unknown", 7).ok().unwrap();

    let call = form_of("(double 21)");
    let before = interpreter.duplicate();
    let mut stopped = before.duplicate();
    assert_eq!(
        stopped.evaluate(&call).err().unwrap().message(),
        "interpreter error: io error: the host has not answered yet"
    );
    match &stopped.wanted {
        Want::Call(id, operands) => {
            assert_eq!(*id, 0);
            assert_eq!(operands.len(), 1);
            assert!(matches!(operands[0], Value::Number(21)));
        }
        _ => panic!("the call is not wanted"),
    }
    let mut answered = before.duplicate();
    answered.supply_answer(Value::Number(42));
    assert_eq!(answered.evaluate(&call).ok().unwrap().to_readable_string(), "42");
    assert!(answered.answers.is_empty());

    let (result, pieces) = serve(
        &mut interpreter,
        "(do (println (double 4)) \
             (list (double (double 5)) (how-many 1 2 3) (map double [1 2]) (fn? double)))",
        &[],
        &[],
        0,
    );
    assert_eq!(pieces.concat(), "8\n");
    assert_eq!(result.ok().unwrap().to_readable_string(), "(20 3 (2 4) true)");

    let (result, _) = serve(&mut interpreter, "(unknown 1)", &[], &[], 0);
    assert_eq!(
        result.err().unwrap().message(),
        "interpreter error: io error: the host has not answered yet"
    );
    let (result, _) = serve(&mut interpreter, "(double \"two\")", &[], &[], 0);
    assert!(result.is_err());
}

#[test]
fn an_attempt_leaves_the_interpreter_as_it_was() {
    let mut interpreter = fresh();
    interpreter.evaluate(&form_of("(def! a (atom 1))")).ok().unwrap();
    let (after, attempt) = interpreter.attempt(&form_of("(do (reset! a 2) (slurp \"f\"))"));
    match attempt {
        Attempt::Stopped(Want::File(path), e) => {
            assert_eq!(path, "f");
            assert_eq!(e.message(), "interpreter error: io error: file not found: f");
        }
        _ => panic!("the attempt did not stop for the file"),
    }
    assert!(matches!(after.wanted, Want::File(_)));
    assert!(matches!(interpreter.wanted, Want::Nothing));
    assert_eq!(
        interpreter.evaluate(&form_of("(deref a)")).ok().unwrap().to_readable_string(),
        "1"
    );
    interpreter.supply_file("f", "text".to_string());
    let (mut after, attempt) = interpreter.attempt(&form_of("(do (reset! a 2) (slurp \"f\"))"));
    match attempt {
        Attempt::Ended(result) => {
            assert_eq!(result.ok().unwrap().to_readable_string(), "\"text\"")
        }
        Attempt::Stopped(_, _) => panic!("the attempt stopped"),
    }
    assert_eq!(
        after.evaluate(&form_of("(deref a)")).ok().unwrap().to_readable_string(),
        "2"
    );
    let (_, attempt) = interpreter.attempt(&form_of("(undefined)"));
    match attempt {
        Attempt::Ended(result) => assert!(result.is_err()),
        Attempt::Stopped(_, _) => panic!("the attempt stopped"),
    }
}

fn once_each(names: &[String]) -> bool {
    names.iter().enumerate().all(|(i, name)| !names[..i].contains(name))
}

fn tidy(interpreter: &Interpreter) -> bool {
    interpreter.scopes.iter().all(|s| s.names.len() == s.values.len() && once_each(&s.names))
        && interpreter
            .namespaces
            .iter()
            .all(|c| c.names.len() == c.cells.len() && once_each(&c.names))
        && interpreter.files.names.len() == interpreter.files.values.len()
        && once_each(&interpreter.files.names)
        && interpreter.written.names.len() == interpreter.written.values.len()
        && once_each(&interpreter.written.names)
}

#[test]
fn every_name_has_one_value() {
    let mut interpreter = fresh();
    assert!(tidy(&interpreter));
    let sources = [
        "(def! a 1)",
        "(def! a 2)",
        "(def! f (fn* [x] (let* [a x a (+ a 1) b a] (list a b))))",
        "(f 3)",
        "(def! broken (undefined))",
        "(def! a (do (def! fresh 1) (undefined)))",
        "(spit \"out\" 1)",
        "(spit \"out\" 2)",
        "(spit \"other\" 3)",
        "(try* (let* [x 1 x 2] (throw (ex-info \"e\" {}))) (catch* x x))",
        "(loop* [i 0 i 1] (if (< i 3) (recur (+ i 1) (+ i 2)) i))",
    ];
    for source in sources {
        let _ = interpreter.evaluate(&form_of(source));
        assert!(tidy(&interpreter), "after {}", source);
    }
    assert_eq!(interpreter.written.names, vec!["out".to_string(), "other".to_string()]);
}
