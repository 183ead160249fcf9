//! How values are written as text.
//!
//! In the readable style a string is written between double quotes with its
//! quotes, backslashes and newlines escaped, so that the text can be read
//! back; in the plain style a string is written as it is.
use crate::collections::{data, lemma_data_index, list_to_vec, vector_to_vec};
use crate::text::{decimal, digits, push_decimal, push_digits, push_str, string_of, chars_of};
use crate::value::{Datum, Value};
use vstd::prelude::*;

verus! {

/// One character of a string, as the readable style writes it.
pub open spec fn escape_char(c: char) -> Seq<char> {
    if c == '"' {
        seq!['\\', '"']
    } else if c == '\\' {
        seq!['\\', '\\']
    } else if c == '\n' {
        seq!['\\', 'n']
    } else {
        seq![c]
    }
}

/// The characters of a string, each as the readable style writes it.
pub open spec fn escape(s: Seq<char>) -> Seq<char>
    decreases s.len(),
{
    if s.len() == 0 {
        Seq::empty()
    } else {
        escape(s.drop_last()) + escape_char(s.last())
    }
}

/// A string between double quotes, escaped.
pub open spec fn quoted(s: Seq<char>) -> Seq<char> {
    seq!['"'] + escape(s) + seq!['"']
}

/// An identifier with its namespace in front, where it has one.
pub open spec fn qualified(id: Seq<char>, ns: Option<Seq<char>>) -> Seq<char> {
    match ns {
        Some(n) => n + seq!['/'] + id,
        None => id,
    }
}

/// What stands between item `i - 1` and item `i` of a collection: a space,
/// or, between the pairs of a map, a comma and a space.
pub open spec fn separator(i: int, pairs: bool) -> Seq<char> {
    if pairs && i % 2 == 0 {
        seq![',', ' ']
    } else {
        seq![' ']
    }
}

/// The text of a value.
pub open spec fn print(d: Datum, readable: bool) -> Seq<char>
    decreases d, 0nat,
{
    match d {
        Datum::Nil => "nil"@,
        Datum::Bool(b) => if b {
            "true"@
        } else {
            "false"@
        },
        Datum::Number(n) => decimal(n as int),
        Datum::String(s) => if readable {
            quoted(s)
        } else {
            s
        },
        Datum::Keyword(id, ns) => seq![':'] + qualified(id, ns),
        Datum::Symbol(id, ns) => qualified(id, ns),
        Datum::List(items) => seq!['('] + print_run(items, items.len(), readable, false) + seq![
            ')',
        ],
        Datum::Vector(items) => seq!['['] + print_run(items, items.len(), readable, false) + seq![
            ']',
        ],
        Datum::HashMap(items) => seq!['{'] + print_run(items, items.len(), readable, true) + seq![
            '}',
        ],
        Datum::HashSet(items) => seq!['#', '{'] + print_run(items, items.len(), readable, false)
            + seq!['}'],
        Datum::Fn(_) => "<fn*>"@,
        Datum::FnWithCaptures(_, _, _) => "<fn* +captures>"@,
        Datum::Primitive(_) => "<primitive fn>"@,
        Datum::Var(_, ns, id) => seq!['#', '\''] + ns + seq!['/'] + id,
        Datum::Recur(items) => seq!['['] + print_run(items, items.len(), readable, false) + seq![
            ']',
        ],
        Datum::Atom(cell) => "(atom #"@ + digits(cell as nat) + seq![')'],
        Datum::Macro(_) => "<macro>"@,
        Datum::Exception(message, payload, _) => "exception: "@ + message + seq![',', ' ']
            + print(*payload, readable),
    }
}

/// The texts of the first `n` items of a collection, with what stands
/// between them.
pub open spec fn print_run(items: Seq<Datum>, n: nat, readable: bool, pairs: bool) -> Seq<char>
    decreases items, n,
{
    if n == 0 || n > items.len() {
        Seq::empty()
    } else if n == 1 {
        print(items[0], readable)
    } else {
        print_run(items, (n - 1) as nat, readable, pairs) + separator(n - 1, pairs) + print(
            items[n - 1],
            readable,
        )
    }
}

/// Appends a string as the readable style writes it.
pub fn write_quoted(out: &mut Vec<char>, s: &str)
    ensures
        final(out)@ == old(out)@ + quoted(s@),
{
    let chars = chars_of(s);
    out.push('"');
    let mut i: usize = 0;
    while i < chars.len()
        invariant
            0 <= i <= chars.len(),
            chars@ == s@,
            out@ == old(out)@ + seq!['"'] + escape(chars@.take(i as int)),
        decreases chars.len() - i,
    {
        let c = chars[i];
        let ghost before = out@;
        proof {
            assert(chars@.take(i + 1).drop_last() =~= chars@.take(i as int));
            assert(chars@.take(i + 1).last() == c);
        }
        if c == '"' {
            out.push('\\');
            out.push('"');
        } else if c == '\\' {
            out.push('\\');
            out.push('\\');
        } else if c == '\n' {
            out.push('\\');
            out.push('n');
        } else {
            out.push(c);
        }
        assert(out@ =~= before + escape_char(c));
        i = i + 1;
        assert(out@ =~= old(out)@ + seq!['"'] + escape(chars@.take(i as int)));
    }
    assert(chars@.take(chars.len() as int) =~= chars@);
    out.push('"');
    assert(out@ =~= old(out)@ + quoted(s@));
}

/// Appends an identifier with its namespace in front, where it has one.
pub fn write_qualified(out: &mut Vec<char>, id: &String, ns: &Option<String>)
    ensures
        final(out)@ == old(out)@ + qualified(id@, crate::value::opt_text(*ns)),
{
    match ns {
        Some(n) => {
            push_str(out, n.as_str());
            out.push('/');
            push_str(out, id.as_str());
            assert(out@ =~= old(out)@ + (n@ + seq!['/'] + id@));
        },
        None => {
            push_str(out, id.as_str());
        },
    }
}

/// Appends the texts of a run of values, with what stands between them.
pub(crate) fn write_run(out: &mut Vec<char>, items: &Vec<Value>, readable: bool, pairs: bool, Ghost(parent): Ghost<Datum>)
    requires
        decreases_to!(parent => data(items@)),
    ensures
        final(out)@ == old(out)@ + print_run(data(items@), items.len() as nat, readable, pairs),
    decreases parent, 0nat,
{
    let ghost terms = data(items@);
    let mut i: usize = 0;
    while i < items.len()
        invariant
            0 <= i <= items.len(),
            terms == data(items@),
            decreases_to!(parent => terms),
            out@ == old(out)@ + print_run(terms, i as nat, readable, pairs),
        decreases items.len() - i,
    {
        let ghost before = out@;
        if i > 0 {
            if pairs && i % 2 == 0 {
                out.push(',');
                out.push(' ');
            } else {
                out.push(' ');
            }
        }
        let ghost middle = out@;
        assert(i > 0 ==> middle =~= before + separator(i as int, pairs));
        proof {
            lemma_data_index(items@, i as int);
            assert(decreases_to!(terms => terms[i as int]));
        }
        write_value(out, &items[i], readable);
        i = i + 1;
        assert(out@ =~= old(out)@ + print_run(terms, i as nat, readable, pairs));
    }
}

/// Appends the text of a value.
pub fn write_value(out: &mut Vec<char>, v: &Value, readable: bool)
    ensures
        final(out)@ == old(out)@ + print(v@, readable),
    decreases v@, 1nat,
{
    match v {
        Value::Nil => push_str(out, "nil"),
        Value::Bool(b) => {
            if *b {
                push_str(out, "true")
            } else {
                push_str(out, "false")
            }
        },
        Value::Number(n) => push_decimal(out, *n),
        Value::String(s) => {
            if readable {
                write_quoted(out, s.as_str())
            } else {
                push_str(out, s.as_str())
            }
        },
        Value::Keyword(id, ns) => {
            out.push(':');
            write_qualified(out, id, ns);
            assert(out@ =~= old(out)@ + print(v@, readable));
        },
        Value::Symbol(id, ns) => write_qualified(out, id, ns),
        Value::List(l) => {
            let items = list_to_vec(l);
            out.push('(');
            assert(decreases_to!(v@ => v@->List_0));
            write_run(out, &items, readable, false, Ghost(v@));
            out.push(')');
            assert(out@ =~= old(out)@ + print(v@, readable));
        },
        Value::Vector(l) => {
            let items = vector_to_vec(l);
            out.push('[');
            assert(decreases_to!(v@ => v@->Vector_0));
            write_run(out, &items, readable, false, Ghost(v@));
            out.push(']');
            assert(out@ =~= old(out)@ + print(v@, readable));
        },
        Value::HashMap(m) => {
            let items = vector_to_vec(&m.entries);
            out.push('{');
            assert(decreases_to!(v@ => v@->HashMap_0));
            write_run(out, &items, readable, true, Ghost(v@));
            out.push('}');
            assert(out@ =~= old(out)@ + print(v@, readable));
        },
        Value::HashSet(s) => {
            let items = vector_to_vec(&s.members);
            out.push('#');
            out.push('{');
            assert(decreases_to!(v@ => v@->HashSet_0));
            write_run(out, &items, readable, false, Ghost(v@));
            out.push('}');
            assert(out@ =~= old(out)@ + print(v@, readable));
        },
        Value::Fn(_) => push_str(out, "<fn*>"),
        Value::FnWithCaptures(_) => push_str(out, "<fn* +captures>"),
        Value::Primitive(_) => push_str(out, "<primitive fn>"),
        Value::Var(var) => {
            out.push('#');
            out.push('\'');
            push_str(out, var.namespace.as_str());
            out.push('/');
            push_str(out, var.identifier.as_str());
            assert(out@ =~= old(out)@ + print(v@, readable));
        },
        Value::Recur(l) => {
            let items = vector_to_vec(l);
            out.push('[');
            assert(decreases_to!(v@ => v@->Recur_0));
            write_run(out, &items, readable, false, Ghost(v@));
            out.push(']');
            assert(out@ =~= old(out)@ + print(v@, readable));
        },
        Value::Atom(cell) => {
            push_str(out, "(atom #");
            push_digits(out, *cell as u64);
            out.push(')');
            assert(out@ =~= old(out)@ + print(v@, readable));
        },
        Value::Macro(_) => push_str(out, "<macro>"),
        Value::Exception(e) => {
            push_str(out, "exception: ");
            push_str(out, e.message.as_str());
            out.push(',');
            out.push(' ');
            assert(decreases_to!(v@ => v@->Exception_1));
            write_value(out, &e.data, readable);
            assert(out@ =~= old(out)@ + print(v@, readable));
        },
    }
}

impl Value {
    /// The text of the value in the readable style.
    pub fn to_readable_string(&self) -> (s: String)
        ensures
            s@ == print(self@, true),
    {
        let mut out: Vec<char> = Vec::new();
        write_value(&mut out, self, true);
        assert(out@ =~= print(self@, true));
        string_of(&out)
    }

    /// The text of the value in the plain style.
    pub fn to_plain_string(&self) -> (s: String)
        ensures
            s@ == print(self@, false),
    {
        let mut out: Vec<char> = Vec::new();
        write_value(&mut out, self, false);
        assert(out@ =~= print(self@, false));
        string_of(&out)
    }
}

} // verus!
