//! Reading back what was printed: the text of a value in the readable
//! style reads as that value.
use crate::errors::Failure;
use crate::equality::find;
use crate::maps::{adjoin_all, assoc_all, fresh_keys, fresh_members};
use crate::printer::{escape, escape_char, print, print_run, qualified, quoted, separator};
use crate::reader::{
    collection, escaped, in_run, is_blank, is_closer, is_name_char, is_trivia, lower, lower_all,
    mark_at, name_form, name_id, name_ns, number_at, opener_at, parse, parse_form, parse_forms,
    read_spec, run_end, slash_place, string_end, unescape, Fault, Run, Syntax,
};
use crate::text::{decimal, digits, is_digit, lemma_digits_round_trip};
use crate::value::Datum;
use vstd::prelude::*;

verus! {

/// Whether a text can be an identifier or a namespace: it is not empty and
/// holds characters of names only, and no slash.
pub open spec fn name_part(s: Seq<char>) -> bool {
    s.len() > 0 && forall|i: int| 0 <= i < s.len() ==> is_name_char(#[trigger] s[i]) && s[i] != '/'
}

/// Whether a text reads as one bare name: its parts are names, and it
/// starts neither like a number nor with a quote mark.
pub open spec fn bare_name(id: Seq<char>, ns: Option<Seq<char>>) -> bool {
    let token = qualified(id, ns);
    &&& name_part(id)
    &&& (ns matches Some(n) ==> name_part(n))
    &&& !is_digit(token[0])
    &&& token[0] != '\''
    &&& !((token[0] == '+' || token[0] == '-') && token.len() > 1 && is_digit(token[1]))
}

/// Whether a text holds characters of names only, and at least one.
pub open spec fn all_name_chars(s: Seq<char>) -> bool {
    s.len() > 0 && forall|i: int| 0 <= i < s.len() ==> is_name_char(#[trigger] s[i])
}

/// The values whose text reads back as the value: `nil`, booleans,
/// numbers, strings, keywords and symbols whose names read as one bare
/// name, and lists, vectors, maps and sets of such values, where a map
/// holds no key twice and a set no member twice. A symbol named `nil`,
/// `true` or `false` is not among them: its text reads as the constant.
/// Functions, primitives, vars, atoms and exceptions are not among them:
/// their texts are no forms.
pub open spec fn readable(d: Datum) -> bool
    decreases d,
{
    match d {
        Datum::Nil => true,
        Datum::Bool(_) => true,
        Datum::Number(_) => true,
        Datum::String(_) => true,
        Datum::Keyword(id, ns) => name_part(id) && (ns matches Some(n) ==> name_part(n)),
        Datum::Symbol(id, ns) => bare_name(id, ns) && (ns is None ==> id != "nil"@ && id
            != "true"@ && id != "false"@),
        Datum::List(items) => forall|i: int| 0 <= i < items.len() ==> readable(#[trigger] items[i]),
        Datum::Vector(items) => forall|i: int|
            0 <= i < items.len() ==> readable(#[trigger] items[i]),
        Datum::HashMap(items) => items.len() % 2 == 0 && fresh_keys(items, items.len() as int)
            && forall|i: int| 0 <= i < items.len() ==> readable(#[trigger] items[i]),
        Datum::HashSet(items) => fresh_members(items, items.len() as int) && forall|i: int|
            0 <= i < items.len() ==> readable(#[trigger] items[i]),
        _ => false,
    }
}

/// Whether the text `t` stands in `s` at `pos`.
pub open spec fn occurs(s: Seq<char>, pos: int, t: Seq<char>) -> bool {
    0 <= pos && pos + t.len() <= s.len() && s.subrange(pos, pos + t.len()) == t
}

/// Whether a token that ends before `pos` ends there: the text ends, or a
/// character follows that no name holds.
pub open spec fn delimited(s: Seq<char>, pos: int) -> bool {
    pos >= s.len() || !is_name_char(s[pos])
}

/// A text that stands in `s` gives `s` its characters.
pub proof fn lemma_occurs_index(s: Seq<char>, pos: int, t: Seq<char>, i: int)
    requires
        occurs(s, pos, t),
        0 <= i < t.len(),
    ensures
        s[pos + i] == t[i],
{
    assert(s.subrange(pos, pos + t.len())[i] == s[pos + i]);
}

/// The parts of a text that stands in `s` stand in `s`.
pub proof fn lemma_occurs_parts(s: Seq<char>, pos: int, a: Seq<char>, b: Seq<char>)
    requires
        occurs(s, pos, a + b),
    ensures
        occurs(s, pos, a),
        occurs(s, pos + a.len(), b),
{
    let t = a + b;
    assert(s.subrange(pos, pos + a.len()) =~= a) by {
        assert forall|i: int| 0 <= i < a.len() implies s.subrange(pos, pos + a.len())[i] == a[i] by {
            lemma_occurs_index(s, pos, t, i);
        }
    }
    assert(s.subrange(pos + a.len(), pos + a.len() + b.len()) =~= b) by {
        assert forall|i: int| 0 <= i < b.len() implies s.subrange(
            pos + a.len(),
            pos + a.len() + b.len(),
        )[i] == b[i] by {
            lemma_occurs_index(s, pos, t, a.len() + i);
        }
    }
}

/// A run that holds characters of its kind only, and after which no such
/// character follows, ends where it ends.
pub proof fn lemma_run_over(s: Seq<char>, from: int, to: int, kind: Run)
    requires
        0 <= from <= to <= s.len(),
        forall|i: int| from <= i < to ==> in_run(kind, #[trigger] s[i]),
        to == s.len() || !in_run(kind, s[to]),
    ensures
        run_end(s, from, kind) == to,
    decreases to - from,
{
    if from < to {
        lemma_run_over(s, from + 1, to, kind);
    }
}

/// The escaped text of a front with one more character.
pub proof fn lemma_escape_step(str: Seq<char>, k: int)
    requires
        0 <= k < str.len(),
    ensures
        escape(str.take(k + 1)) == escape(str.take(k)) + escape_char(str[k]),
{
    assert(str.take(k + 1).drop_last() =~= str.take(k));
    assert(str.take(k + 1).last() == str[k]);
}

/// The escaped text of a string is the escaped text of a front and then
/// some rest.
pub proof fn lemma_escape_front(str: Seq<char>, k: int)
    requires
        0 <= k <= str.len(),
    ensures
        escape(str.take(k)).len() <= escape(str).len(),
        escape(str).take(escape(str.take(k)).len() as int) == escape(str.take(k)),
    decreases str.len() - k,
{
    if k == str.len() {
        assert(str.take(k) =~= str);
        assert(escape(str).take(escape(str).len() as int) =~= escape(str));
    } else {
        lemma_escape_front(str, k + 1);
        lemma_escape_step(str, k);
        let a = escape(str.take(k));
        let b = escape(str.take(k + 1));
        assert(b.take(a.len() as int) =~= a);
        assert(escape(str).take(a.len() as int) =~= escape(str).take(b.len() as int).take(
            a.len() as int,
        ));
    }
}

/// The characters of an escaped string at the place of a character of the
/// string.
pub proof fn lemma_escape_at(str: Seq<char>, k: int)
    requires
        0 <= k < str.len(),
    ensures
        ({
            let e = escape(str);
            let p = escape(str.take(k)).len() as int;
            let c = escape_char(str[k]);
            &&& p + c.len() <= e.len()
            &&& forall|i: int| 0 <= i < c.len() ==> e[p + i] == c[i]
            &&& escape(str.take(k + 1)).len() == p + c.len()
        }),
{
    lemma_escape_front(str, k + 1);
    lemma_escape_step(str, k);
    let e = escape(str);
    let a = escape(str.take(k));
    let b = escape(str.take(k + 1));
    let c = escape_char(str[k]);
    assert forall|i: int| 0 <= i < c.len() implies e[a.len() + i] == c[i] by {
        assert(e.take(b.len() as int)[a.len() + i] == b[a.len() + i]);
    }
}

/// Resolving the escapes of an escaped string from the place of a
/// character on gives the string from that character on.
pub proof fn lemma_unescape_escape(str: Seq<char>, k: int)
    requires
        0 <= k <= str.len(),
    ensures
        unescape(escape(str), escape(str.take(k)).len() as int) == str.skip(k),
    decreases str.len() - k,
{
    let e = escape(str);
    let p = escape(str.take(k)).len() as int;
    if k == str.len() {
        assert(str.take(k) =~= str);
        assert(str.skip(k) =~= Seq::<char>::empty());
    } else {
        lemma_unescape_escape(str, k + 1);
        lemma_escape_at(str, k);
        let c = str[k];
        let ec = escape_char(c);
        assert(e[p] == ec[0]);
        if c == '"' || c == '\\' || c == '\n' {
            assert(e[p + 1] == ec[1]);
            assert(escaped(e[p + 1]) == seq![c]);
        }
        assert(str.skip(k) =~= seq![c] + str.skip(k + 1));
    }
}

/// The escapes of an escaped string resolve to the string.
pub proof fn law_unescape_escape(str: Seq<char>)
    ensures
        unescape(escape(str), 0) == str,
{
    lemma_unescape_escape(str, 0);
    assert(str.take(0) =~= Seq::<char>::empty());
    assert(str.skip(0) =~= str);
}

/// The string that opens before `q` closes after its escaped text.
pub proof fn lemma_string_end(s: Seq<char>, q: int, str: Seq<char>, k: int)
    requires
        0 <= k <= str.len(),
        occurs(s, q, escape(str) + seq!['"']),
    ensures
        string_end(s, q + escape(str.take(k)).len()) == Some(q + escape(str).len()),
    decreases str.len() - k,
{
    let e = escape(str);
    let whole = e + seq!['"'];
    let p = escape(str.take(k)).len() as int;
    if k == str.len() {
        assert(str.take(k) =~= str);
        lemma_occurs_index(s, q, whole, e.len() as int);
    } else {
        lemma_string_end(s, q, str, k + 1);
        lemma_escape_at(str, k);
        let c = str[k];
        let ec = escape_char(c);
        lemma_occurs_index(s, q, whole, p);
        assert(whole[p] == e[p]);
        assert(s[q + p] == ec[0]);
        if c == '"' || c == '\\' || c == '\n' {
            assert(s[q + p] == '\\');
            assert(q + p + 1 < s.len());
        } else {
            assert(s[q + p] == c);
        }
    }
}

/// A text without slash has its first slash at its end.
pub proof fn lemma_no_slash(name: Seq<char>, from: int)
    requires
        forall|i: int| 0 <= i < name.len() ==> #[trigger] name[i] != '/',
        0 <= from <= name.len(),
    ensures
        slash_place(name, from) == name.len(),
    decreases name.len() - from,
{
    if from < name.len() {
        assert(name[from] != '/');
        lemma_no_slash(name, from + 1);
    }
}

/// The first slash of a namespace, a slash and an identifier stands after
/// the namespace.
pub proof fn lemma_slash_after(ns: Seq<char>, id: Seq<char>, from: int)
    requires
        forall|i: int| 0 <= i < ns.len() ==> #[trigger] ns[i] != '/',
        0 <= from <= ns.len(),
    ensures
        slash_place(ns + seq!['/'] + id, from) == ns.len(),
    decreases ns.len() - from,
{
    let token = ns + seq!['/'] + id;
    if from < ns.len() {
        assert(token[from] == ns[from]);
        lemma_slash_after(ns, id, from + 1);
    } else {
        assert(token[from] == '/');
    }
}

/// The parts of a name are what it was made of.
pub proof fn lemma_name_parts(id: Seq<char>, ns: Option<Seq<char>>)
    requires
        name_part(id),
        ns matches Some(n) ==> name_part(n),
    ensures
        name_id(qualified(id, ns)) == id,
        name_ns(qualified(id, ns)) == ns,
        all_name_chars(qualified(id, ns)),
{
    let token = qualified(id, ns);
    match ns {
        Some(n) => {
            lemma_slash_after(n, id, 0);
            assert(token.skip(n.len() as int + 1) =~= id);
            assert(token.take(n.len() as int) =~= n);
            assert forall|i: int| 0 <= i < token.len() implies is_name_char(#[trigger] token[i]) by {
                if i < n.len() {
                    assert(token[i] == n[i]);
                } else if i == n.len() {
                    assert(token[i] == '/');
                } else {
                    assert(token[i] == id[i - n.len() - 1]);
                }
            }
        },
        None => {
            assert(forall|i: int| 0 <= i < id.len() ==> #[trigger] id[i] != '/');
            lemma_no_slash(id, 0);
        },
    }
}

/// A bare name that stands in a text reads as the form of the name.
pub proof fn lemma_parse_name(s: Seq<char>, pos: int, name: Seq<char>)
    requires
        all_name_chars(name),
        !is_digit(name[0]),
        name[0] != '\'',
        !((name[0] == '+' || name[0] == '-') && name.len() > 1 && is_digit(name[1])),
        occurs(s, pos, name),
        delimited(s, pos + name.len()),
    ensures
        parse_form(s, pos) == Ok::<(Syntax, int), (Fault, int)>(
            (name_form(name), pos + name.len()),
        ),
{
    lemma_occurs_index(s, pos, name, 0);
    let c = s[pos];
    assert(c == name[0]);
    assert(is_name_char(name[0]));
    assert forall|i: int| pos <= i < pos + name.len() implies in_run(Run::Name, #[trigger] s[i]) by {
        lemma_occurs_index(s, pos, name, i - pos);
    }
    lemma_run_over(s, pos, pos + name.len(), Run::Name);
    assert(opener_at(s, pos) is None);
    assert(mark_at(s, pos) is None);
    if name.len() > 1 {
        lemma_occurs_index(s, pos, name, 1);
    } else {
        assert(pos + 1 >= s.len() || !is_name_char(s[pos + 1]));
    }
    assert(!number_at(s, pos));
}

/// A keyword that stands in a text reads as the keyword.
pub proof fn lemma_parse_keyword(s: Seq<char>, pos: int, id: Seq<char>, ns: Option<Seq<char>>)
    requires
        name_part(id),
        ns matches Some(n) ==> name_part(n),
        occurs(s, pos, seq![':'] + qualified(id, ns)),
        delimited(s, pos + 1 + qualified(id, ns).len()),
    ensures
        parse_form(s, pos) == Ok::<(Syntax, int), (Fault, int)>(
            (Syntax::Keyword(id, ns), pos + 1 + qualified(id, ns).len()),
        ),
{
    let token = qualified(id, ns);
    lemma_name_parts(id, ns);
    lemma_occurs_parts(s, pos, seq![':'], token);
    lemma_occurs_index(s, pos, seq![':'] + token, 0);
    assert(s[pos] == ':');
    assert forall|i: int| pos + 1 <= i < pos + 1 + token.len() implies in_run(
        Run::Name,
        #[trigger] s[i],
    ) by {
        lemma_occurs_index(s, pos + 1, token, i - pos - 1);
    }
    lemma_run_over(s, pos + 1, pos + 1 + token.len(), Run::Name);
    assert(opener_at(s, pos) is None);
    assert(mark_at(s, pos) is None);
    assert(!number_at(s, pos));
}

/// The numeral of a number that stands in a text reads as the number.
pub proof fn lemma_parse_numeral(s: Seq<char>, pos: int, n: i64)
    requires
        occurs(s, pos, decimal(n as int)),
        delimited(s, pos + decimal(n as int).len()),
    ensures
        parse_form(s, pos) == Ok::<(Syntax, int), (Fault, int)>(
            (Syntax::Number(n), pos + decimal(n as int).len()),
        ),
{
    let t = decimal(n as int);
    if n >= 0 {
        let m = n as nat;
        lemma_digits_round_trip(m);
        lemma_occurs_index(s, pos, t, 0);
        assert(is_digit(t[0]));
        assert forall|i: int| pos <= i < pos + t.len() implies in_run(
            Run::Digits,
            #[trigger] s[i],
        ) by {
            lemma_occurs_index(s, pos, t, i - pos);
            assert(is_digit(t[i - pos]));
        }
        lemma_run_over(s, pos, pos + t.len(), Run::Digits);
        assert(opener_at(s, pos) is None);
        assert(mark_at(s, pos) is None);
        assert(number_at(s, pos));
        assert(s.subrange(pos, pos + t.len()) == t);
    } else {
        let m = (-n) as nat;
        lemma_digits_round_trip(m);
        let ds = digits(m);
        lemma_occurs_parts(s, pos, seq!['-'], ds);
        lemma_occurs_index(s, pos, t, 0);
        assert(s[pos] == '-');
        lemma_occurs_index(s, pos + 1, ds, 0);
        assert(is_digit(ds[0]));
        assert forall|i: int| pos + 1 <= i < pos + 1 + ds.len() implies in_run(
            Run::Digits,
            #[trigger] s[i],
        ) by {
            lemma_occurs_index(s, pos + 1, ds, i - pos - 1);
            assert(is_digit(ds[i - pos - 1]));
        }
        lemma_run_over(s, pos + 1, pos + 1 + ds.len(), Run::Digits);
        assert(opener_at(s, pos) is None);
        assert(mark_at(s, pos) is None);
        assert(number_at(s, pos));
        assert(s.subrange(pos + 1, pos + 1 + ds.len()) == ds);
    }
}

/// A quoted string that stands in a text reads as the string.
pub proof fn lemma_parse_quoted(s: Seq<char>, pos: int, str: Seq<char>)
    requires
        occurs(s, pos, quoted(str)),
    ensures
        parse_form(s, pos) == Ok::<(Syntax, int), (Fault, int)>(
            (Syntax::String(escape(str)), pos + quoted(str).len()),
        ),
{
    let e = escape(str);
    assert(quoted(str) =~= seq!['"'] + (e + seq!['"']));
    lemma_occurs_parts(s, pos, seq!['"'], e + seq!['"']);
    lemma_occurs_index(s, pos, quoted(str), 0);
    assert(s[pos] == '"');
    lemma_string_end(s, pos + 1, str, 0);
    assert(str.take(0) =~= Seq::<char>::empty());
    lemma_occurs_parts(s, pos + 1, e, seq!['"']);
}

/// The texts of the items from place `k` to place `n`, each item after the
/// first of the collection with its separator before it.
pub open spec fn run_tail(items: Seq<Datum>, k: int, n: int, pairs: bool) -> Seq<char>
    decreases n,
{
    if n <= k || n <= 0 || n > items.len() {
        Seq::empty()
    } else if n == 1 {
        print(items[0], true)
    } else {
        run_tail(items, k, n - 1, pairs) + separator(n - 1, pairs) + print(items[n - 1], true)
    }
}

/// The text of the items is the text of the items from the first on.
pub proof fn lemma_run_is_tail(items: Seq<Datum>, n: int, pairs: bool)
    requires
        0 <= n <= items.len(),
    ensures
        print_run(items, n as nat, true, pairs) == run_tail(items, 0, n, pairs),
    decreases n,
{
    if n > 1 {
        lemma_run_is_tail(items, n - 1, pairs);
    }
}

/// What stands before item `k`: its separator, nothing for the first item.
pub open spec fn lead(k: int, pairs: bool) -> Seq<char> {
    if k > 0 {
        separator(k, pairs)
    } else {
        Seq::empty()
    }
}

/// The text of the items from place `k` on is the text of item `k`, with
/// its separator before it where it is not the first, and then the text of
/// the items after it.
pub proof fn lemma_run_tail_head(items: Seq<Datum>, k: int, n: int, pairs: bool)
    requires
        0 <= k < n <= items.len(),
    ensures
        run_tail(items, k, n, pairs) == lead(k, pairs) + print(items[k], true) + run_tail(
            items,
            k + 1,
            n,
            pairs,
        ),
    decreases n,
{
    if n == k + 1 {
        assert(run_tail(items, k + 1, n, pairs) =~= Seq::<char>::empty());
        if n == 1 {
            assert(run_tail(items, k, n, pairs) =~= lead(k, pairs) + print(items[k], true)
                + run_tail(items, k + 1, n, pairs));
        } else {
            assert(run_tail(items, k, n - 1, pairs) =~= Seq::<char>::empty());
            assert(run_tail(items, k, n, pairs) =~= lead(k, pairs) + print(items[k], true)
                + run_tail(items, k + 1, n, pairs));
        }
    } else {
        lemma_run_tail_head(items, k, n - 1, pairs);
        assert(run_tail(items, k, n, pairs) =~= lead(k, pairs) + print(items[k], true) + run_tail(
            items,
            k + 1,
            n,
            pairs,
        ));
    }
}

/// The text of a readable value is not empty and starts with a character
/// that is neither a blank nor a closing bracket.
pub proof fn lemma_written_first(d: Datum)
    requires
        readable(d),
    ensures
        print(d, true).len() > 0,
        !is_blank(print(d, true)[0]),
        !is_closer(print(d, true)[0]),
{
    reveal_strlit("nil");
    reveal_strlit("true");
    reveal_strlit("false");
    match d {
        Datum::Number(n) => {
            if n >= 0 {
                lemma_digits_round_trip(n as nat);
                assert(is_digit(digits(n as nat)[0]));
            } else {
                assert(decimal(n as int)[0] == '-');
            }
        },
        Datum::String(str) => {
            assert(quoted(str)[0] == '"');
        },
        Datum::Keyword(id, ns) => {
            assert(print(d, true)[0] == ':');
        },
        Datum::Symbol(id, ns) => {
            lemma_name_parts(id, ns);
            assert(is_name_char(qualified(id, ns)[0]));
        },
        Datum::List(items) => {
            assert(print(d, true)[0] == '(');
        },
        Datum::Vector(items) => {
            assert(print(d, true)[0] == '[');
        },
        Datum::HashMap(items) => {
            assert(print(d, true)[0] == '{');
        },
        Datum::HashSet(items) => {
            assert(print(d, true)[0] == '#');
        },
        _ => {},
    }
}

/// The values of the first forms of a run do not depend on the forms
/// after them.
pub proof fn lemma_lower_all_front(xs: Seq<Syntax>, x: Syntax, n: nat)
    requires
        n <= xs.len(),
    ensures
        lower_all(xs.push(x), n) == lower_all(xs, n),
    decreases n,
{
    if n > 0 {
        lemma_lower_all_front(xs, x, (n - 1) as nat);
        assert(xs.push(x)[n - 1] == xs[n - 1]);
    }
}

/// As many values come of a run of forms as it has forms that are neither
/// blanks nor comments.
pub proof fn lemma_lower_count(xs: Seq<Syntax>, n: nat)
    requires
        n <= xs.len(),
    ensures
        lower_all(xs, n) matches Ok(values) ==> values.len() == crate::reader::solid_count(xs, n),
    decreases n,
{
    if n > 0 {
        lemma_lower_count(xs, (n - 1) as nat);
    }
}

/// The forms of the texts of readable items, from item `k` on and up to a
/// closing bracket, read as forms that stand for the items.
pub proof fn lemma_parse_items(
    s: Seq<char>,
    q: int,
    items: Seq<Datum>,
    k: int,
    close: char,
    pairs: bool,
    done: Seq<Syntax>,
)
    requires
        forall|i: int| 0 <= i < items.len() ==> readable(#[trigger] items[i]),
        0 <= k <= items.len(),
        is_closer(close),
        occurs(s, q, run_tail(items, k, items.len() as int, pairs) + seq![close]),
        lower_all(done, done.len()) == Ok::<Seq<Datum>, Fault>(items.take(k)),
    ensures
        parse_forms(s, q, Some(close), done) matches Ok((xs, next)) && next == q + run_tail(
            items,
            k,
            items.len() as int,
            pairs,
        ).len() + 1 && lower_all(xs, xs.len()) == Ok::<Seq<Datum>, Fault>(items),
    decreases items, items.len() - k,
{
    let n = items.len() as int;
    let tail = run_tail(items, k, n, pairs);
    let whole = tail + seq![close];
    if k == n {
        assert(tail =~= Seq::<char>::empty());
        lemma_occurs_index(s, q, whole, 0);
        assert(s[q] == close);
        assert(items.take(k) =~= items);
    } else {
        lemma_run_tail_head(items, k, n, pairs);
        let w = print(items[k], true);
        let rest = run_tail(items, k + 1, n, pairs);
        lemma_written_first(items[k]);
        let before = lead(k, pairs);
        assert(whole =~= before + (w + (rest + seq![close])));
        lemma_occurs_parts(s, q, before, w + (rest + seq![close]));
        let q1 = q + before.len();
        lemma_occurs_parts(s, q1, w, rest + seq![close]);
        let q2 = q1 + w.len();
        lemma_occurs_index(s, q1, w, 0);
        assert(s[q1] == w[0]);
        // what follows the item is a separator or the closing bracket
        assert(delimited(s, q2)) by {
            lemma_occurs_index(s, q2, rest + seq![close], 0);
            if k + 1 < n {
                lemma_run_tail_head(items, k + 1, n, pairs);
                assert(lead(k + 1, pairs)[0] == ' ' || lead(k + 1, pairs)[0] == ',');
                assert((rest + seq![close])[0] == lead(k + 1, pairs)[0]);
            } else {
                assert(rest =~= Seq::<char>::empty());
                assert((rest + seq![close])[0] == close);
            }
        }
        lemma_parse_written(s, q1, items[k]);
        let parsed = parse_form(s, q1);
        let x = parsed->Ok_0.0;
        let blank = Syntax::Whitespace(before);
        let done1 = if k > 0 {
            done.push(blank)
        } else {
            done
        };
        assert(lower_all(done1, done1.len()) == Ok::<Seq<Datum>, Fault>(items.take(k))) by {
            if k > 0 {
                lemma_lower_all_front(done, blank, done.len());
            }
        }
        let done2 = done1.push(x);
        assert(lower_all(done2, done2.len()) == Ok::<Seq<Datum>, Fault>(items.take(k + 1))) by {
            lemma_lower_all_front(done1, x, done1.len());
            assert(done2[done2.len() - 1] == x);
            assert(items.take(k).push(items[k]) =~= items.take(k + 1));
        }
        lemma_parse_items(s, q2, items, k + 1, close, pairs, done2);
        assert(parse_forms(s, q1, Some(close), done1) == parse_forms(s, q2, Some(close), done2));
        if k > 0 {
            lemma_occurs_index(s, q, whole, 0);
            assert(is_blank(s[q]));
            assert forall|i: int| q <= i < q1 implies in_run(Run::Blank, #[trigger] s[i]) by {
                lemma_occurs_index(s, q, before, i - q);
            }
            assert(!is_blank(s[q1]));
            lemma_run_over(s, q, q1, Run::Blank);
            assert(s.subrange(q, q1) =~= before);
            assert(parse_form(s, q) == Ok::<(Syntax, int), (Fault, int)>((blank, q1)));
            assert(parse_forms(s, q, Some(close), done) == parse_forms(
                s,
                q1,
                Some(close),
                done1,
            ));
        }
    }
}

/// Binding the entries of a map without double keys one after the other
/// gives the entries.
pub proof fn lemma_assoc_all_fresh(entries: Seq<Datum>, n: nat)
    requires
        n % 2 == 0,
        n <= entries.len(),
        fresh_keys(entries, n as int),
    ensures
        assoc_all(Seq::empty(), entries, n) == entries.take(n as int),
    decreases n,
{
    if n >= 2 {
        lemma_assoc_all_fresh(entries, (n - 2) as nat);
        let front = entries.take(n - 2);
        assert(find(entries[n - 2], front, 0, true) is None);
        assert(front.push(entries[n - 2]).push(entries[n - 1]) =~= entries.take(n as int));
    } else {
        assert(entries.take(0) =~= Seq::<Datum>::empty());
    }
}

/// Adjoining the members of a set without double members one after the
/// other gives the members.
pub proof fn lemma_adjoin_all_fresh(members: Seq<Datum>, n: nat)
    requires
        n <= members.len(),
        fresh_members(members, n as int),
    ensures
        adjoin_all(Seq::empty(), members, n) == members.take(n as int),
    decreases n,
{
    if n >= 1 {
        lemma_adjoin_all_fresh(members, (n - 1) as nat);
        let front = members.take(n - 1);
        assert(find(members[n - 1], front, 0, false) is None);
        assert(front.push(members[n - 1]) =~= members.take(n as int));
    } else {
        assert(members.take(0) =~= Seq::<Datum>::empty());
    }
}

/// The text of a readable value that stands in a text reads as a form
/// that stands for the value.
pub proof fn lemma_parse_written(s: Seq<char>, pos: int, d: Datum)
    requires
        readable(d),
        occurs(s, pos, print(d, true)),
        delimited(s, pos + print(d, true).len()),
    ensures
        parse_form(s, pos) matches Ok((x, next)) && next == pos + print(d, true).len()
            && !is_trivia(x) && lower(x) == Ok::<Datum, Fault>(d),
    decreases d, 0nat,
{
    reveal_strlit("nil");
    reveal_strlit("true");
    reveal_strlit("false");
    match d {
        Datum::Nil => {
            assert(all_name_chars("nil"@));
            lemma_parse_name(s, pos, "nil"@);
        },
        Datum::Bool(b) => {
            if b {
                assert(all_name_chars("true"@));
                lemma_parse_name(s, pos, "true"@);
            } else {
                assert(all_name_chars("false"@));
                lemma_parse_name(s, pos, "false"@);
            }
        },
        Datum::Number(n) => {
            lemma_parse_numeral(s, pos, n);
        },
        Datum::String(str) => {
            lemma_parse_quoted(s, pos, str);
            law_unescape_escape(str);
        },
        Datum::Keyword(id, ns) => {
            lemma_parse_keyword(s, pos, id, ns);
        },
        Datum::Symbol(id, ns) => {
            let token = qualified(id, ns);
            lemma_name_parts(id, ns);
            lemma_parse_name(s, pos, token);
            if ns is Some {
                let n = ns->0;
                assert(token[n.len() as int] == '/');
                assert(token != "nil"@ && token != "true"@ && token != "false"@) by {
                    if token.len() == 3 {
                        assert("nil"@[n.len() as int] != '/');
                    }
                    if token.len() == 4 {
                        assert("true"@[n.len() as int] != '/');
                    }
                    if token.len() == 5 {
                        assert("false"@[n.len() as int] != '/');
                    }
                }
            }
        },
        Datum::List(items) => {
            let run = print_run(items, items.len(), true, false);
            let text = seq!['('] + run + seq![')'];
            assert(text =~= seq!['('] + (run + seq![')']));
            lemma_occurs_parts(s, pos, seq!['('], run + seq![')']);
            lemma_occurs_index(s, pos, text, 0);
            lemma_parse_collection(s, pos, items, 1, ')', false);
        },
        Datum::Vector(items) => {
            let run = print_run(items, items.len(), true, false);
            let text = seq!['['] + run + seq![']'];
            assert(text =~= seq!['['] + (run + seq![']']));
            lemma_occurs_parts(s, pos, seq!['['], run + seq![']']);
            lemma_occurs_index(s, pos, text, 0);
            lemma_parse_collection(s, pos, items, 1, ']', false);
        },
        Datum::HashMap(items) => {
            let run = print_run(items, items.len(), true, true);
            let text = seq!['{'] + run + seq!['}'];
            assert(text =~= seq!['{'] + (run + seq!['}']));
            lemma_occurs_parts(s, pos, seq!['{'], run + seq!['}']);
            lemma_occurs_index(s, pos, text, 0);
            lemma_parse_collection(s, pos, items, 1, '}', true);
            lemma_assoc_all_fresh(items, items.len());
            assert(items.take(items.len() as int) =~= items);
        },
        Datum::HashSet(items) => {
            let run = print_run(items, items.len(), true, false);
            let text = seq!['#', '{'] + run + seq!['}'];
            assert(text =~= seq!['#', '{'] + (run + seq!['}']));
            lemma_occurs_parts(s, pos, seq!['#', '{'], run + seq!['}']);
            lemma_occurs_index(s, pos, text, 0);
            lemma_occurs_index(s, pos, text, 1);
            lemma_parse_collection(s, pos, items, 2, '}', false);
            lemma_adjoin_all_fresh(items, items.len());
            assert(items.take(items.len() as int) =~= items);
        },
        _ => {},
    }
}

/// The items between the brackets of a collection of readable items read
/// as forms that stand for the items.
pub proof fn lemma_parse_collection(
    s: Seq<char>,
    pos: int,
    items: Seq<Datum>,
    width: int,
    close: char,
    pairs: bool,
)
    requires
        forall|i: int| 0 <= i < items.len() ==> readable(#[trigger] items[i]),
        is_closer(close),
        width == 1 || width == 2,
        0 <= pos,
        pos + width <= s.len(),
        opener_at(s, pos) == Some((close, width)),
        s[pos] == '{' ==> items.len() % 2 == 0,
        occurs(
            s,
            pos + width,
            print_run(items, items.len(), true, pairs) + seq![close],
        ),
    ensures
        parse_form(s, pos) matches Ok((x, next)) && next == pos + width + print_run(
            items,
            items.len(),
            true,
            pairs,
        ).len() + 1 && exists|xs: Seq<Syntax>|
            x == collection(s[pos], xs) && lower_all(xs, xs.len()) == Ok::<Seq<Datum>, Fault>(
                items,
            ),
    decreases items, items.len() + 1,
{
    let n = items.len() as int;
    lemma_run_is_tail(items, n, pairs);
    assert(lower_all(Seq::<Syntax>::empty(), 0) == Ok::<Seq<Datum>, Fault>(Seq::empty()));
    assert(items.take(0) =~= Seq::<Datum>::empty());
    lemma_parse_items(s, pos + width, items, 0, close, pairs, Seq::empty());
    let parsed = parse_forms(s, pos + width, Some(close), Seq::empty());
    let xs = parsed->Ok_0.0;
    lemma_lower_count(xs, xs.len());
    assert(!is_blank(s[pos]));
    assert(parse_form(s, pos)->Ok_0.0 == collection(s[pos], xs));
}

/// The text of a readable value reads as that value, and as nothing else.
pub proof fn law_read_print(d: Datum)
    requires
        readable(d),
    ensures
        read_spec(print(d, true)) == Ok::<Seq<Datum>, Failure>(seq![d]),
{
    let s = print(d, true);
    lemma_written_first(d);
    assert(s.subrange(0, s.len() as int) =~= s);
    lemma_parse_written(s, 0, d);
    let parsed = parse_form(s, 0);
    let x = parsed->Ok_0.0;
    let one = Seq::<Syntax>::empty().push(x);
    assert(parse_forms(s, s.len() as int, None, one) == Ok::<(Seq<Syntax>, int), (Fault, int)>(
        (one, s.len() as int),
    ));
    assert(parse(s) == Ok::<(Seq<Syntax>, int), (Fault, int)>((one, s.len() as int)));
    assert(lower_all(one, 0) == Ok::<Seq<Datum>, Fault>(Seq::empty()));
    assert(one[0] == x);
    assert(lower_all(one, 1) == Ok::<Seq<Datum>, Fault>(Seq::<Datum>::empty().push(d)));
    assert(Seq::<Datum>::empty().push(d) =~= seq![d]);
}

/// The text of a quoted value is the text of the list of `quote` and the
/// value.
pub proof fn lemma_quote_text(d: Datum)
    ensures
        "(quote "@ + print(d, true) + ")"@ == print(
            Datum::List(seq![crate::quasiquote::sym("quote"@), d]),
            true,
        ),
{
    reveal_strlit("(quote ");
    reveal_strlit("quote");
    reveal_strlit(")");
    let items = seq![crate::quasiquote::sym("quote"@), d];
    reveal_with_fuel(print_run, 3);
    assert(print_run(items, 2, true, false) =~= "quote"@ + seq![' '] + print(d, true));
    assert("(quote "@ + print(d, true) + ")"@ =~= seq!['('] + print_run(items, 2, true, false)
        + seq![')']);
}

/// The symbol `quote` reads back as itself.
pub proof fn lemma_quote_readable()
    ensures
        readable(crate::quasiquote::sym("quote"@)),
{
    reveal_strlit("quote");
    reveal_strlit("nil");
    reveal_strlit("true");
    reveal_strlit("false");
    let q = "quote"@;
    assert(q.len() == 5);
    assert(q[0] == 'q' && q[1] == 'u' && q[2] == 'o' && q[3] == 't' && q[4] == 'e');
    assert(name_part(q));
    assert(q != "nil"@);
    assert(q != "true"@);
    assert(q != "false"@);
}

/// For a readable value `d`, the text `(quote d)`, with the text of `d` in
/// the readable style, reads as the one form `(quote d)`.
pub proof fn law_read_quoted(d: Datum)
    requires
        readable(d),
    ensures
        read_spec("(quote "@ + print(d, true) + ")"@) == Ok::<Seq<Datum>, Failure>(
            seq![Datum::List(seq![crate::quasiquote::sym("quote"@), d])],
        ),
{
    lemma_quote_text(d);
    lemma_quote_readable();
    let q = Datum::List(seq![crate::quasiquote::sym("quote"@), d]);
    assert(readable(q)) by {
        let items = seq![crate::quasiquote::sym("quote"@), d];
        assert forall|i: int| 0 <= i < items.len() implies readable(#[trigger] items[i]) by {
            if i == 0 {
            } else {
                assert(items[i] == d);
            }
        }
    }
    law_read_print(q);
}

} // verus!
