use sigil::boot::InterpreterBuilder;
use sigil::collections::{PersistentList, PersistentVector};
use sigil::equality::equal;
use sigil::reader::read_values;
use sigil::state::Interpreter;
use sigil::value::{PersistentMap, PersistentSet, Value};

fn numbers(ns: &[i64]) -> Vec<Value> {
    ns.iter().map(|n| Value::Number(*n)).collect()
}

fn shown(values: &[Value]) -> Vec<String> {
    values.iter().map(|v| v.to_readable_string()).collect()
}

fn evaluated(source: &str) -> String {
    let mut interpreter: Interpreter = InterpreterBuilder::default()
        .build_with_default_source()
        .ok()
        .unwrap();
    let mut last = Value::Nil;
    for form in &read_values(source).unwrap() {
        last = interpreter.evaluate(form).ok().unwrap();
    }
    last.to_readable_string()
}

#[test]
fn lists_hold_what_they_were_made_of() {
    assert_eq!(PersistentList::new().len(), 0);
    assert!(PersistentList::new().items().is_empty());
    let list = PersistentList::from_vec(numbers(&[1, 2, 3]));
    assert_eq!(list.len(), 3);
    assert_eq!(shown(&list.items()), vec!["1", "2", "3"]);
    assert_eq!(Value::List(list).to_readable_string(), "(1 2 3)");
}

#[test]
fn vectors_hold_what_they_were_made_of() {
    assert_eq!(PersistentVector::new().len(), 0);
    assert!(PersistentVector::new().items().is_empty());
    let vector = PersistentVector::from_vec(numbers(&[1, 2, 3]));
    assert_eq!(vector.len(), 3);
    assert_eq!(shown(&vector.items()), vec!["1", "2", "3"]);
    assert_eq!(Value::Vector(vector).to_readable_string(), "[1 2 3]");
    assert_eq!(Value::HashMap(PersistentMap::new()).to_readable_string(), "{}");
    assert_eq!(Value::HashSet(PersistentSet::new()).to_readable_string(), "#{}");
}

#[test]
fn copies_share_their_items() {
    let list = Value::List(PersistentList::from_vec(numbers(&[1, 2])));
    let vector = Value::Vector(PersistentVector::from_vec(numbers(&[1, 2])));
    assert!(equal(&list.clone(), &list));
    assert!(equal(&vector.clone(), &vector));
    assert_eq!(list.clone().to_readable_string(), "(1 2)");
    assert_eq!(vector.clone().to_readable_string(), "[1 2]");
    assert_eq!(
        evaluated("(def! a '(1 2)) (def! b (cons 0 a)) (def! c (rest a)) (list a b c)"),
        "((1 2) (0 1 2) (2))"
    );
    assert_eq!(
        evaluated("(def! a [1 2]) (def! b (conj a 3)) (list a b (nth b 2) (count b))"),
        "([1 2] [1 2 3] 3 3)"
    );
}

#[test]
fn each_operation_on_lists() {
    assert_eq!(evaluated("(list)"), "()");
    assert_eq!(evaluated("(count '(7 8 9))"), "3");
    assert_eq!(evaluated("(empty? '(7))"), "false");
    assert_eq!(evaluated("(cons 1 '(2 3))"), "(1 2 3)");
    assert_eq!(evaluated("(cons 1 [2 3])"), "(1 2 3)");
    assert_eq!(evaluated("(rest '(1 2 3))"), "(2 3)");
    assert_eq!(evaluated("(rest '(1))"), "()");
    assert_eq!(evaluated("(conj '(1 2) 3 4)"), "(4 3 1 2)");
    assert_eq!(evaluated("(def! l '(8 9)) `(7 ~@l (splice-unquote l) (9))"), "(7 8 9 8 9 (9))");
    assert_eq!(evaluated("(nth '(7 8 9) 1)"), "8");
    assert_eq!(evaluated("(first '(7 8 9))"), "7");
    assert_eq!(evaluated("(last '(7 8 9))"), "9");
}

#[test]
fn each_operation_on_vectors() {
    assert_eq!(evaluated("(vector)"), "[]");
    assert_eq!(evaluated("(count [7 8 9])"), "3");
    assert_eq!(evaluated("(empty? [7])"), "false");
    assert_eq!(evaluated("(nth [7 8 9] 0)"), "7");
    assert_eq!(evaluated("(nth [7 8 9] 2)"), "9");
    assert_eq!(evaluated("(conj [7] 8 9)"), "[7 8 9]");
    assert_eq!(evaluated("(conj {} [7 8])"), "{7 8}");
    assert_eq!(evaluated("(vec '(7 8))"), "[7 8]");
    assert_eq!(evaluated("(rest [7 8 9])"), "(8 9)");
    assert_eq!(evaluated("[(+ 1 2) (+ 3 4)]"), "[3 7]");
}
