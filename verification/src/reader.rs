//! The reader: from text to forms, and from forms to values.
//!
//! `read` keeps everything that the text holds, blanks and comments too, as
//! a tree of forms. `lower_forms` turns such a tree into values: it drops
//! blanks and comments, resolves the escapes of strings and builds maps and
//! sets. `read_values` does both.
use crate::collections::{data, lemma_data_push, list_from_vec, vector_from_vec};
use crate::errors::{Failure, ReaderError};
use crate::maps::{adjoin_all, assoc_all};
use crate::text::{
    chars_of, digits, digits_value, is_digit, push_digits, push_str, read_digits, string_of,
    string_of_range,
};
use crate::value::{opt_text, Datum, Value};
use vstd::prelude::*;

verus! {

/// A node of the tree that the reader makes of a text.
#[derive(Debug, PartialEq)]
pub enum Form {
    Nil,
    Bool(bool),
    Number(i64),
    /// The characters between the quotes, escapes unresolved.
    String(String),
    /// Identifier, optional namespace.
    Keyword(String, Option<String>),
    /// Identifier, optional namespace.
    Symbol(String, Option<String>),
    /// The characters after the semicolon, up to the end of the line.
    Comment(String),
    Whitespace(String),
    List(Vec<Form>),
    Vector(Vec<Form>),
    HashMap(Vec<Form>),
    HashSet(Vec<Form>),
}

/// The term that stands for a form.
pub enum Syntax {
    Nil,
    Bool(bool),
    Number(i64),
    String(Seq<char>),
    Keyword(Seq<char>, Option<Seq<char>>),
    Symbol(Seq<char>, Option<Seq<char>>),
    Comment(Seq<char>),
    Whitespace(Seq<char>),
    List(Seq<Syntax>),
    Vector(Seq<Syntax>),
    HashMap(Seq<Syntax>),
    HashSet(Seq<Syntax>),
}

/// What is wrong with a text.
#[derive(Clone, Copy, PartialEq, Eq, Structural, Debug)]
pub enum Fault {
    /// The text ends inside a string, a collection or after a quote mark.
    UnexpectedEnd,
    /// A character that no form starts with.
    UnexpectedCharacter,
    /// A closing bracket that closes nothing, or the wrong bracket.
    UnbalancedCloser,
    /// A number that does not fit in 64 bits.
    NumberOutOfRange,
    /// A map with a key that has no value.
    OddMap,
}

/// The terms of a run of forms.
pub open spec fn terms(forms: Seq<Form>) -> Seq<Syntax>
    decreases forms,
{
    Seq::new(
        forms.len(),
        |i: int|
            if 0 <= i < forms.len() {
                forms[i].term()
            } else {
                Syntax::Nil
            },
    )
}

impl Form {
    /// The term that stands for this form.
    pub open spec fn term(&self) -> Syntax
        decreases self,
    {
        match self {
            Form::Nil => Syntax::Nil,
            Form::Bool(b) => Syntax::Bool(*b),
            Form::Number(n) => Syntax::Number(*n),
            Form::String(s) => Syntax::String(s@),
            Form::Keyword(id, ns) => Syntax::Keyword(id@, opt_text(*ns)),
            Form::Symbol(id, ns) => Syntax::Symbol(id@, opt_text(*ns)),
            Form::Comment(s) => Syntax::Comment(s@),
            Form::Whitespace(s) => Syntax::Whitespace(s@),
            Form::List(items) => Syntax::List(terms(items@)),
            Form::Vector(items) => Syntax::Vector(terms(items@)),
            Form::HashMap(items) => Syntax::HashMap(terms(items@)),
            Form::HashSet(items) => Syntax::HashSet(terms(items@)),
        }
    }
}

impl View for Form {
    type V = Syntax;

    open spec fn view(&self) -> Syntax {
        self.term()
    }
}

/// The terms of a run with one more form.
pub proof fn lemma_terms_push(forms: Seq<Form>, f: Form)
    ensures
        terms(forms.push(f)) == terms(forms).push(f.term()),
{
    assert(terms(forms.push(f)) =~= terms(forms).push(f.term()));
}

/// Whether `c` separates forms: a space, a tab, a line end or a comma.
pub open spec fn is_blank(c: char) -> bool {
    c == ' ' || c == '\t' || c == '\n' || c == '\r' || c == ','
}

/// Whether `c` is a letter of the basic alphabet or a decimal digit.
pub open spec fn is_alnum(c: char) -> bool {
    ('0' <= c <= '9') || ('a' <= c <= 'z') || ('A' <= c <= 'Z')
}

/// Whether `c` can stand in the name of a symbol or a keyword. The slash
/// parts a namespace from an identifier and names division.
pub open spec fn is_name_char(c: char) -> bool {
    is_alnum(c) || c == '*' || c == '+' || c == '!' || c == '-' || c == '_' || c == '\'' || c
        == '?' || c == '<' || c == '>' || c == '=' || c == '&' || c == '/'
}

/// Whether `c` closes a collection.
pub open spec fn is_closer(c: char) -> bool {
    c == ')' || c == ']' || c == '}'
}

/// The three kinds of runs that the reader scans.
#[derive(Clone, Copy, PartialEq, Eq, Structural, Debug)]
pub enum Run {
    Blank,
    Name,
    Digits,
    Line,
}

/// Whether `c` belongs to a run of the given kind.
pub open spec fn in_run(kind: Run, c: char) -> bool {
    match kind {
        Run::Blank => is_blank(c),
        Run::Name => is_name_char(c),
        Run::Digits => is_digit(c),
        Run::Line => c != '\n',
    }
}

/// Where the longest run of the given kind that starts at `pos` ends.
pub open spec fn run_end(s: Seq<char>, pos: int, kind: Run) -> int
    decreases s.len() - pos,
{
    if 0 <= pos < s.len() && in_run(kind, s[pos]) {
        run_end(s, pos + 1, kind)
    } else {
        pos
    }
}

/// Where the string that opens before `pos` closes: the place of its
/// closing quote. A backslash takes the character after it along.
pub open spec fn string_end(s: Seq<char>, pos: int) -> Option<int>
    decreases s.len() - pos,
{
    if pos < 0 || pos >= s.len() {
        None
    } else if s[pos] == '"' {
        Some(pos)
    } else if s[pos] == '\\' {
        if pos + 1 >= s.len() {
            None
        } else {
            string_end(s, pos + 2)
        }
    } else {
        string_end(s, pos + 1)
    }
}

/// Where the first slash of a name is, or the name's length.
pub open spec fn slash_place(name: Seq<char>, from: int) -> int
    decreases name.len() - from,
{
    if 0 <= from < name.len() && name[from] != '/' {
        slash_place(name, from + 1)
    } else {
        from
    }
}

/// The identifier of a name: what follows the first slash, where the slash
/// has something on both sides; the whole name otherwise.
pub open spec fn name_id(name: Seq<char>) -> Seq<char> {
    let k = slash_place(name, 0);
    if 0 < k && k + 1 < name.len() {
        name.skip(k + 1)
    } else {
        name
    }
}

/// The namespace of a name: what stands before the first slash, where the
/// slash has something on both sides.
pub open spec fn name_ns(name: Seq<char>) -> Option<Seq<char>> {
    let k = slash_place(name, 0);
    if 0 < k && k + 1 < name.len() {
        Some(name.take(k))
    } else {
        None
    }
}

/// The form that a bare name stands for.
pub open spec fn name_form(name: Seq<char>) -> Syntax {
    if name == "nil"@ {
        Syntax::Nil
    } else if name == "true"@ {
        Syntax::Bool(true)
    } else if name == "false"@ {
        Syntax::Bool(false)
    } else {
        Syntax::Symbol(name_id(name), name_ns(name))
    }
}

/// The symbol that a quote mark stands for, and how many characters the
/// mark takes; nothing where no mark stands at `pos`.
pub open spec fn mark_at(s: Seq<char>, pos: int) -> Option<(Seq<char>, int)> {
    if pos < 0 || pos >= s.len() {
        None
    } else if s[pos] == '\'' {
        Some(("quote"@, 1))
    } else if s[pos] == '`' {
        Some(("quasiquote"@, 1))
    } else if s[pos] == '~' {
        if pos + 1 < s.len() && s[pos + 1] == '@' {
            Some(("splice-unquote"@, 2))
        } else {
            Some(("unquote"@, 1))
        }
    } else if s[pos] == '@' {
        Some(("deref"@, 1))
    } else {
        None
    }
}

/// The closing bracket of the collection that opens at `pos`, and how many
/// characters the opening takes.
pub open spec fn opener_at(s: Seq<char>, pos: int) -> Option<(char, int)> {
    if pos < 0 || pos >= s.len() {
        None
    } else if s[pos] == '(' {
        Some((')', 1))
    } else if s[pos] == '[' {
        Some((']', 1))
    } else if s[pos] == '{' {
        Some(('}', 1))
    } else if s[pos] == '#' && pos + 1 < s.len() && s[pos + 1] == '{' {
        Some(('}', 2))
    } else {
        None
    }
}

/// The collection that opens with the character `open` and holds `items`.
pub open spec fn collection(open: char, items: Seq<Syntax>) -> Syntax {
    if open == '(' {
        Syntax::List(items)
    } else if open == '[' {
        Syntax::Vector(items)
    } else if open == '{' {
        Syntax::HashMap(items)
    } else {
        Syntax::HashSet(items)
    }
}

/// Whether a number starts at `pos`: a digit, or a sign and a digit.
pub open spec fn number_at(s: Seq<char>, pos: int) -> bool {
    0 <= pos < s.len() && (is_digit(s[pos]) || ((s[pos] == '+' || s[pos] == '-') && pos + 1
        < s.len() && is_digit(s[pos + 1])))
}

/// Whether a form is a blank or a comment.
pub open spec fn is_trivia(x: Syntax) -> bool {
    x is Comment || x is Whitespace
}

/// How many of the first `n` forms of a run are neither blanks nor
/// comments.
pub open spec fn solid_count(xs: Seq<Syntax>, n: nat) -> nat
    decreases n,
{
    if n == 0 || n > xs.len() {
        0
    } else if is_trivia(xs[n - 1]) {
        solid_count(xs, (n - 1) as nat)
    } else {
        solid_count(xs, (n - 1) as nat) + 1
    }
}

/// The result of reading one form: the form and where the next one starts,
/// or what is wrong and where.
pub type Parsed = Result<(Syntax, int), (Fault, int)>;

/// The result of reading a run of forms.
pub type ParsedRun = Result<(Seq<Syntax>, int), (Fault, int)>;

/// The number that starts at `pos`.
pub open spec fn parse_number(s: Seq<char>, pos: int) -> Parsed {
    let signed = s[pos] == '+' || s[pos] == '-';
    let start = if signed {
        pos + 1
    } else {
        pos
    };
    let end = run_end(s, start, Run::Digits);
    let magnitude = digits_value(s.subrange(start, end));
    if s[pos] == '-' {
        if magnitude > 0x8000_0000_0000_0000 {
            Err((Fault::NumberOutOfRange, pos))
        } else {
            Ok((Syntax::Number((-magnitude) as i64), end))
        }
    } else {
        if magnitude > 0x7fff_ffff_ffff_ffff {
            Err((Fault::NumberOutOfRange, pos))
        } else {
            Ok((Syntax::Number(magnitude as i64), end))
        }
    }
}

/// The form that starts at `pos`.
pub open spec fn parse_form(s: Seq<char>, pos: int) -> Parsed
    decreases s.len() - pos, 0nat,
{
    if pos < 0 || pos >= s.len() {
        Err((Fault::UnexpectedEnd, pos))
    } else if is_blank(s[pos]) {
        let end = run_end(s, pos, Run::Blank);
        Ok((Syntax::Whitespace(s.subrange(pos, end)), end))
    } else if s[pos] == ';' {
        let end = run_end(s, pos + 1, Run::Line);
        let next = if end < s.len() {
            end + 1
        } else {
            end
        };
        Ok((Syntax::Comment(s.subrange(pos + 1, end)), next))
    } else if s[pos] == '"' {
        match string_end(s, pos + 1) {
            Some(end) => Ok((Syntax::String(s.subrange(pos + 1, end)), end + 1)),
            None => Err((Fault::UnexpectedEnd, s.len() as int)),
        }
    } else if opener_at(s, pos) is Some {
        let (closer, width) = opener_at(s, pos)->0;
        match parse_forms(s, pos + width, Some(closer), Seq::empty()) {
            Ok((items, next)) => if s[pos] == '{' && solid_count(items, items.len()) % 2 != 0 {
                Err((Fault::OddMap, pos))
            } else {
                Ok((collection(s[pos], items), next))
            },
            Err(e) => Err(e),
        }
    } else if mark_at(s, pos) is Some {
        let (name, width) = mark_at(s, pos)->0;
        let start = run_end(s, pos + width, Run::Blank);
        if start <= pos || start >= s.len() {
            Err((Fault::UnexpectedEnd, s.len() as int))
        } else {
            match parse_form(s, start) {
                Ok((operand, next)) => Ok(
                    (Syntax::List(seq![Syntax::Symbol(name, None), operand]), next),
                ),
                Err(e) => Err(e),
            }
        }
    } else if is_closer(s[pos]) {
        Err((Fault::UnbalancedCloser, pos))
    } else if number_at(s, pos) {
        parse_number(s, pos)
    } else if s[pos] == ':' {
        let end = run_end(s, pos + 1, Run::Name);
        if end == pos + 1 {
            Err((Fault::UnexpectedCharacter, pos))
        } else {
            let name = s.subrange(pos + 1, end);
            Ok((Syntax::Keyword(name_id(name), name_ns(name)), end))
        }
    } else if is_name_char(s[pos]) {
        let end = run_end(s, pos, Run::Name);
        Ok((name_form(s.subrange(pos, end)), end))
    } else {
        Err((Fault::UnexpectedCharacter, pos))
    }
}

/// The forms from `pos` up to the closing bracket `closer`, or up to the
/// end of the text where none is awaited, after the forms `done`.
pub open spec fn parse_forms(s: Seq<char>, pos: int, closer: Option<char>, done: Seq<Syntax>)
    -> ParsedRun
    decreases s.len() - pos, 1nat,
{
    if pos < 0 || pos >= s.len() {
        if closer is None {
            Ok((done, pos))
        } else {
            Err((Fault::UnexpectedEnd, pos))
        }
    } else if closer == Some(s[pos]) {
        Ok((done, pos + 1))
    } else {
        match parse_form(s, pos) {
            Ok((form, next)) => if next <= pos || next > s.len() {
                Err((Fault::UnexpectedCharacter, pos))
            } else {
                parse_forms(s, next, closer, done.push(form))
            },
            Err(e) => Err(e),
        }
    }
}

/// The forms of a whole text.
pub open spec fn parse(s: Seq<char>) -> ParsedRun {
    parse_forms(s, 0, None, Seq::empty())
}

/// What the longest run from `pos` holds, and where it stops.
pub proof fn lemma_run_end(s: Seq<char>, pos: int, kind: Run)
    requires
        0 <= pos <= s.len(),
    ensures
        pos <= run_end(s, pos, kind) <= s.len(),
        forall|i: int| pos <= i < run_end(s, pos, kind) ==> in_run(kind, #[trigger] s[i]),
        run_end(s, pos, kind) < s.len() ==> !in_run(kind, s[run_end(s, pos, kind)]),
    decreases s.len() - pos,
{
    if pos < s.len() && in_run(kind, s[pos]) {
        lemma_run_end(s, pos + 1, kind);
    }
}

/// Whether `c` belongs to a run of the given kind.
pub fn belongs(kind: Run, c: char) -> (r: bool)
    ensures
        r == in_run(kind, c),
{
    match kind {
        Run::Blank => c == ' ' || c == '\t' || c == '\n' || c == '\r' || c == ',',
        Run::Name => (c >= '0' && c <= '9') || (c >= 'a' && c <= 'z') || (c >= 'A' && c <= 'Z')
            || c == '*' || c == '+' || c == '!' || c == '-' || c == '_' || c == '\'' || c == '?'
            || c == '<' || c == '>' || c == '=' || c == '&' || c == '/',
        Run::Digits => c >= '0' && c <= '9',
        Run::Line => c != '\n',
    }
}

/// Where the longest run of the given kind that starts at `pos` ends.
pub fn scan_run(chars: &Vec<char>, pos: usize, kind: Run) -> (end: usize)
    requires
        pos <= chars.len(),
    ensures
        end == run_end(chars@, pos as int, kind),
        pos <= end <= chars.len(),
{
    let mut i: usize = pos;
    while i < chars.len() && belongs(kind, chars[i])
        invariant
            pos <= i <= chars.len(),
            run_end(chars@, pos as int, kind) == run_end(chars@, i as int, kind),
        decreases chars.len() - i,
    {
        i = i + 1;
    }
    i
}

/// Where the string that opens before `pos` closes.
pub fn scan_string(chars: &Vec<char>, pos: usize) -> (r: Option<usize>)
    requires
        pos <= chars.len(),
    ensures
        match r {
            Some(end) => string_end(chars@, pos as int) == Some(end as int) && pos <= end
                < chars.len(),
            None => string_end(chars@, pos as int) is None,
        },
{
    let mut i: usize = pos;
    while i < chars.len()
        invariant
            pos <= i <= chars.len(),
            string_end(chars@, pos as int) == string_end(chars@, i as int),
        decreases chars.len() - i,
    {
        let c = chars[i];
        if c == '"' {
            return Some(i);
        } else if c == '\\' {
            if i + 1 >= chars.len() {
                return None;
            }
            i = i + 2;
        } else {
            i = i + 1;
        }
    }
    None
}

/// A copy of `chars[from..to]`.
pub fn slice_of(chars: &Vec<char>, from: usize, to: usize) -> (r: Vec<char>)
    requires
        from <= to <= chars.len(),
    ensures
        r@ == chars@.subrange(from as int, to as int),
{
    let mut out: Vec<char> = Vec::new();
    let mut i: usize = from;
    while i < to
        invariant
            from <= i <= to <= chars.len(),
            out@ == chars@.subrange(from as int, i as int),
        decreases to - i,
    {
        out.push(chars[i]);
        i = i + 1;
        assert(out@ =~= chars@.subrange(from as int, i as int));
    }
    out
}

/// The identifier and the namespace of a name.
pub fn split_name(name: &Vec<char>) -> (r: (String, Option<String>))
    ensures
        r.0@ == name_id(name@),
        opt_text(r.1) == name_ns(name@),
{
    let mut k: usize = 0;
    while k < name.len() && name[k] != '/'
        invariant
            0 <= k <= name.len(),
            slash_place(name@, 0) == slash_place(name@, k as int),
        decreases name.len() - k,
    {
        k = k + 1;
    }
    if 0 < k && k < name.len() && k + 1 < name.len() {
        let id = string_of_range(name, k + 1, name.len());
        let ns = string_of_range(name, 0, k);
        (id, Some(ns))
    } else {
        (string_of(name), None)
    }
}

/// The number that starts at `pos`.
fn read_number(chars: &Vec<char>, pos: usize) -> (r: Result<(Form, usize), (Fault, usize)>)
    requires
        number_at(chars@, pos as int),
    ensures
        match r {
            Ok((form, next)) => parse_number(chars@, pos as int) == Ok::<(Syntax, int), (Fault, int)>((form.term(), next as int))
                && pos < next <= chars.len(),
            Err((fault, at)) => parse_number(chars@, pos as int) == Err::<(Syntax, int), (Fault, int)>((fault, at as int)),
        },
{
    assert(pos < chars.len());
    let first = chars[pos];
    let signed = first == '+' || first == '-';
    let start: usize = if signed {
        pos + 1
    } else {
        pos
    };
    let end = scan_run(chars, start, Run::Digits);
    proof {
        lemma_run_end(chars@, start as int, Run::Digits);
        assert(start < end);
        assert forall|i: int| 0 <= i < end - start implies is_digit(
            #[trigger] chars@.subrange(start as int, end as int)[i],
        ) by {
            assert(in_run(Run::Digits, chars@[start + i]));
        }
    }
    match read_digits(chars, start, end) {
        Some(magnitude) => {
            if first == '-' {
                if magnitude > 0x8000_0000_0000_0000 {
                    Err((Fault::NumberOutOfRange, pos))
                } else if magnitude == 0x8000_0000_0000_0000 {
                    Ok((Form::Number(i64::MIN), end))
                } else {
                    Ok((Form::Number(-(magnitude as i64)), end))
                }
            } else {
                if magnitude > 0x7fff_ffff_ffff_ffff {
                    Err((Fault::NumberOutOfRange, pos))
                } else {
                    Ok((Form::Number(magnitude as i64), end))
                }
            }
        },
        None => Err((Fault::NumberOutOfRange, pos)),
    }
}

/// How many forms of a run are neither blanks nor comments.
pub fn count_solid(forms: &Vec<Form>) -> (n: usize)
    ensures
        n == solid_count(terms(forms@), forms.len() as nat),
{
    let mut n: usize = 0;
    let mut i: usize = 0;
    while i < forms.len()
        invariant
            0 <= i <= forms.len(),
            n <= i,
            n == solid_count(terms(forms@), i as nat),
        decreases forms.len() - i,
    {
        assert(terms(forms@)[i as int] == forms[i as int].term());
        match &forms[i] {
            Form::Comment(_) => {},
            Form::Whitespace(_) => {},
            _ => {
                n = n + 1;
            },
        }
        i = i + 1;
    }
    n
}

/// The form that starts at `pos`.
pub fn read_form(chars: &Vec<char>, pos: usize) -> (r: Result<(Form, usize), (Fault, usize)>)
    requires
        pos <= chars.len(),
    ensures
        match r {
            Ok((form, next)) => parse_form(chars@, pos as int) == Ok::<(Syntax, int), (Fault, int)>((form.term(), next as int))
                && pos < next <= chars.len(),
            Err((fault, at)) => parse_form(chars@, pos as int) == Err::<(Syntax, int), (Fault, int)>((fault, at as int)),
        },
    decreases chars.len() - pos, 0nat,
{
    if pos >= chars.len() {
        return Err((Fault::UnexpectedEnd, pos));
    }
    let c = chars[pos];
    let ghost s = chars@;
    if belongs(Run::Blank, c) {
        let end = scan_run(chars, pos, Run::Blank);
        proof {
            lemma_run_end(s, pos as int, Run::Blank);
            assert(run_end(s, pos as int, Run::Blank) == run_end(s, pos + 1, Run::Blank));
            lemma_run_end(s, pos + 1, Run::Blank);
        }
        let text = string_of_range(chars, pos, end);
        return Ok((Form::Whitespace(text), end));
    }
    if c == ';' {
        let end = scan_run(chars, pos + 1, Run::Line);
        let text = string_of_range(chars, pos + 1, end);
        let next = if end < chars.len() {
            end + 1
        } else {
            end
        };
        return Ok((Form::Comment(text), next));
    }
    if c == '"' {
        return match scan_string(chars, pos + 1) {
            Some(end) => {
                let text = string_of_range(chars, pos + 1, end);
                Ok((Form::String(text), end + 1))
            },
            None => Err((Fault::UnexpectedEnd, chars.len())),
        };
    }
    if c == '(' || c == '[' || c == '{' || (c == '#' && pos + 1 < chars.len() && chars[pos + 1]
        == '{') {
        let closer = if c == '(' {
            ')'
        } else if c == '[' {
            ']'
        } else {
            '}'
        };
        let width: usize = if c == '#' {
            2
        } else {
            1
        };
        assert(opener_at(s, pos as int) == Some((closer, width as int)));
        return match read_forms(chars, pos + width, Some(closer)) {
            Ok((items, next)) => {
                if c == '{' && count_solid(&items) % 2 != 0 {
                    return Err((Fault::OddMap, pos));
                }
                let form = if c == '(' {
                    Form::List(items)
                } else if c == '[' {
                    Form::Vector(items)
                } else if c == '{' {
                    Form::HashMap(items)
                } else {
                    Form::HashSet(items)
                };
                Ok((form, next))
            },
            Err(e) => Err(e),
        };
    }
    assert(opener_at(s, pos as int) is None);
    if c == '\'' || c == '`' || c == '~' || c == '@' {
        let spliced = c == '~' && pos + 1 < chars.len() && chars[pos + 1] == '@';
        let width: usize = if spliced {
            2
        } else {
            1
        };
        let name = if c == '\'' {
            "quote"
        } else if c == '`' {
            "quasiquote"
        } else if c == '@' {
            "deref"
        } else if spliced {
            "splice-unquote"
        } else {
            "unquote"
        };
        assert(mark_at(s, pos as int) == Some((name@, width as int)));
        let start = scan_run(chars, pos + width, Run::Blank);
        if start >= chars.len() {
            return Err((Fault::UnexpectedEnd, chars.len()));
        }
        return match read_form(chars, start) {
            Ok((operand, next)) => {
                let mut items: Vec<Form> = Vec::new();
                items.push(Form::Symbol(String::from_str(name), None));
                items.push(operand);
                assert(terms(items@) =~= seq![Syntax::Symbol(name@, None), operand.term()]);
                Ok((Form::List(items), next))
            },
            Err(e) => Err(e),
        };
    }
    assert(mark_at(s, pos as int) is None);
    if c == ')' || c == ']' || c == '}' {
        return Err((Fault::UnbalancedCloser, pos));
    }
    let digit = c >= '0' && c <= '9';
    let sign = (c == '+' || c == '-') && pos + 1 < chars.len() && chars[pos + 1] >= '0' && chars[pos
        + 1] <= '9';
    if digit || sign {
        return read_number(chars, pos);
    }
    assert(!number_at(s, pos as int));
    if c == ':' {
        let end = scan_run(chars, pos + 1, Run::Name);
        if end == pos + 1 {
            return Err((Fault::UnexpectedCharacter, pos));
        }
        let name = slice_of(chars, pos + 1, end);
        let (id, ns) = split_name(&name);
        return Ok((Form::Keyword(id, ns), end));
    }
    if belongs(Run::Name, c) {
        let end = scan_run(chars, pos, Run::Name);
        proof {
            lemma_run_end(s, pos as int, Run::Name);
            assert(run_end(s, pos as int, Run::Name) == run_end(s, pos + 1, Run::Name));
            lemma_run_end(s, pos + 1, Run::Name);
        }
        let name = slice_of(chars, pos, end);
        let text = string_of(&name);
        let form = if crate::text::same_text(text.as_str(), "nil") {
            Form::Nil
        } else if crate::text::same_text(text.as_str(), "true") {
            Form::Bool(true)
        } else if crate::text::same_text(text.as_str(), "false") {
            Form::Bool(false)
        } else {
            let (id, ns) = split_name(&name);
            Form::Symbol(id, ns)
        };
        return Ok((form, end));
    }
    Err((Fault::UnexpectedCharacter, pos))
}

/// The forms from `pos` up to the closing bracket `closer`, or up to the
/// end of the text where none is awaited.
pub fn read_forms(chars: &Vec<char>, pos: usize, closer: Option<char>) -> (r: Result<
    (Vec<Form>, usize),
    (Fault, usize),
>)
    requires
        pos <= chars.len(),
    ensures
        match r {
            Ok((forms, next)) => parse_forms(chars@, pos as int, closer, Seq::empty()) == Ok::<(Seq<Syntax>, int), (Fault, int)>(
                (terms(forms@), next as int),
            ) && pos <= next <= chars.len(),
            Err((fault, at)) => parse_forms(chars@, pos as int, closer, Seq::empty()) == Err::<(Seq<Syntax>, int), (Fault, int)>(
                (fault, at as int),
            ),
        },
    decreases chars.len() - pos, 1nat,
{
    let mut done: Vec<Form> = Vec::new();
    let mut at: usize = pos;
    assert(terms(done@) =~= Seq::<Syntax>::empty());
    loop
        invariant
            pos <= at <= chars.len(),
            parse_forms(chars@, pos as int, closer, Seq::empty()) == parse_forms(
                chars@,
                at as int,
                closer,
                terms(done@),
            ),
        decreases chars.len() - at,
    {
        if at >= chars.len() {
            return match closer {
                None => Ok((done, at)),
                Some(_) => Err((Fault::UnexpectedEnd, at)),
            };
        }
        let c = chars[at];
        let closes = match closer {
            Some(k) => k == c,
            None => false,
        };
        if closes {
            return Ok((done, at + 1));
        }
        match read_form(chars, at) {
            Ok((form, next)) => {
                proof {
                    lemma_terms_push(done@, form);
                }
                done.push(form);
                at = next;
            },
            Err(e) => {
                return Err(e);
            },
        }
    }
}

/// What one escape stands for: the character after the backslash decides.
pub open spec fn escaped(c: char) -> Seq<char> {
    if c == 'n' {
        seq!['\n']
    } else if c == '\\' {
        seq!['\\']
    } else if c == '"' {
        seq!['"']
    } else {
        seq!['\\', c]
    }
}

/// The characters of a string from `pos` on, with `\n`, `\\` and `\"`
/// resolved; any other backslash stays.
pub open spec fn unescape(raw: Seq<char>, pos: int) -> Seq<char>
    decreases raw.len() - pos,
{
    if pos < 0 || pos >= raw.len() {
        Seq::empty()
    } else if raw[pos] == '\\' && pos + 1 < raw.len() {
        escaped(raw[pos + 1]) + unescape(raw, pos + 2)
    } else {
        seq![raw[pos]] + unescape(raw, pos + 1)
    }
}

/// The value that a form stands for. A blank or a comment stands for
/// nothing and is left out of the collection that holds it.
pub open spec fn lower(x: Syntax) -> Result<Datum, Fault>
    decreases x, 0nat,
{
    match x {
        Syntax::Nil => Ok(Datum::Nil),
        Syntax::Bool(b) => Ok(Datum::Bool(b)),
        Syntax::Number(n) => Ok(Datum::Number(n)),
        Syntax::String(raw) => Ok(Datum::String(unescape(raw, 0))),
        Syntax::Keyword(id, ns) => Ok(Datum::Keyword(id, ns)),
        Syntax::Symbol(id, ns) => Ok(Datum::Symbol(id, ns)),
        Syntax::Comment(_) => Ok(Datum::Nil),
        Syntax::Whitespace(_) => Ok(Datum::Nil),
        Syntax::List(xs) => match lower_all(xs, xs.len()) {
            Ok(items) => Ok(Datum::List(items)),
            Err(e) => Err(e),
        },
        Syntax::Vector(xs) => match lower_all(xs, xs.len()) {
            Ok(items) => Ok(Datum::Vector(items)),
            Err(e) => Err(e),
        },
        Syntax::HashMap(xs) => match lower_all(xs, xs.len()) {
            Ok(items) => if items.len() % 2 != 0 {
                Err(Fault::OddMap)
            } else {
                Ok(Datum::HashMap(assoc_all(Seq::empty(), items, items.len())))
            },
            Err(e) => Err(e),
        },
        Syntax::HashSet(xs) => match lower_all(xs, xs.len()) {
            Ok(items) => Ok(Datum::HashSet(adjoin_all(Seq::empty(), items, items.len()))),
            Err(e) => Err(e),
        },
    }
}

/// The values that the first `n` forms of a run stand for, blanks and
/// comments left out.
pub open spec fn lower_all(xs: Seq<Syntax>, n: nat) -> Result<Seq<Datum>, Fault>
    decreases xs, n,
{
    if n == 0 || n > xs.len() {
        Ok(Seq::empty())
    } else {
        match lower_all(xs, (n - 1) as nat) {
            Ok(front) => if is_trivia(xs[n - 1]) {
                Ok(front)
            } else {
                match lower(xs[n - 1]) {
                    Ok(d) => Ok(front.push(d)),
                    Err(e) => Err(e),
                }
            },
            Err(e) => Err(e),
        }
    }
}

/// The text that says what is wrong.
pub open spec fn fault_text(fault: Fault) -> Seq<char> {
    match fault {
        Fault::UnexpectedEnd => "unexpected end of input"@,
        Fault::UnexpectedCharacter => "unexpected character"@,
        Fault::UnbalancedCloser => "unbalanced closing bracket"@,
        Fault::NumberOutOfRange => "number out of range"@,
        Fault::OddMap => "map literal needs an even number of forms"@,
    }
}

/// The error that the reader gives for a fault at a place: a closing
/// bracket that closes nothing is input left over, anything else is a
/// parser error whose message names the fault and the place.
pub open spec fn fault_failure(fault: Fault, at: int) -> Failure {
    if fault == Fault::UnbalancedCloser {
        Failure::ExtraneousInput(Seq::empty())
    } else {
        Failure::ParserError(
            fault_text(fault) + " at position "@ + digits(at as nat),
            Seq::empty(),
        )
    }
}

/// The values that a text stands for, or the error of reading it.
pub open spec fn read_spec(s: Seq<char>) -> Result<Seq<Datum>, Failure> {
    match parse(s) {
        Ok((forms, _)) => match lower_all(forms, forms.len()) {
            Ok(items) => Ok(items),
            Err(fault) => Err(fault_failure(fault, s.len() as int)),
        },
        Err((fault, at)) => Err(fault_failure(fault, at)),
    }
}

/// The characters of a string with its escapes resolved.
pub fn resolve_escapes(raw: &str) -> (r: String)
    ensures
        r@ == unescape(raw@, 0),
{
    let chars = chars_of(raw);
    let mut out: Vec<char> = Vec::new();
    let mut i: usize = 0;
    while i < chars.len()
        invariant
            0 <= i <= chars.len(),
            chars@ == raw@,
            out@ + unescape(chars@, i as int) == unescape(chars@, 0),
        decreases chars.len() - i,
    {
        let c = chars[i];
        let ghost before = out@;
        if c == '\\' && i + 1 < chars.len() {
            let d = chars[i + 1];
            if d == 'n' {
                out.push('\n');
            } else if d == '\\' {
                out.push('\\');
            } else if d == '"' {
                out.push('"');
            } else {
                out.push('\\');
                out.push(d);
            }
            assert(out@ =~= before + escaped(d));
            assert(out@ + unescape(chars@, i + 2) =~= before + unescape(chars@, i as int));
            i = i + 2;
        } else {
            out.push(c);
            assert(out@ + unescape(chars@, i + 1) =~= before + unescape(chars@, i as int));
            i = i + 1;
        }
    }
    assert(out@ =~= out@ + unescape(chars@, i as int));
    string_of(&out)
}

/// The values that a run of forms stands for, blanks and comments left out.
pub fn lower_run(forms: &Vec<Form>) -> (r: Result<Vec<Value>, Fault>)
    ensures
        match r {
            Ok(values) => lower_all(terms(forms@), forms.len() as nat) == Ok::<Seq<Datum>, Fault>(data(values@)),
            Err(fault) => lower_all(terms(forms@), forms.len() as nat) == Err::<Seq<Datum>, Fault>(fault),
        },
    decreases forms, 1nat,
{
    let mut out: Vec<Value> = Vec::new();
    let mut i: usize = 0;
    assert(data(out@) =~= Seq::<Datum>::empty());
    while i < forms.len()
        invariant
            0 <= i <= forms.len(),
            lower_all(terms(forms@), i as nat) == Ok::<Seq<Datum>, Fault>(data(out@)),
        decreases forms.len() - i,
    {
        let form = &forms[i];
        assert(terms(forms@)[i as int] == form.term());
        match form {
            Form::Comment(_) => {},
            Form::Whitespace(_) => {},
            _ => {
                match lower_form(form) {
                    Ok(v) => {
                        proof {
                            lemma_data_push(out@, v);
                        }
                        out.push(v);
                    },
                    Err(fault) => {
                        proof {
                            lemma_lower_all_fails(terms(forms@), i + 1, forms.len() as int);
                        }
                        return Err(fault);
                    },
                }
            },
        }
        i = i + 1;
    }
    Ok(out)
}

/// Once a form of a run fails to lower, the run fails the same way.
pub proof fn lemma_lower_all_fails(xs: Seq<Syntax>, k: int, n: int)
    requires
        0 <= k <= n <= xs.len(),
        lower_all(xs, k as nat) is Err,
    ensures
        lower_all(xs, n as nat) == lower_all(xs, k as nat),
    decreases n - k,
{
    if k < n {
        lemma_lower_all_fails(xs, k, n - 1);
    }
}

/// The value that a form stands for.
pub fn lower_form(form: &Form) -> (r: Result<Value, Fault>)
    ensures
        match r {
            Ok(v) => lower(form.term()) == Ok::<Datum, Fault>(v@),
            Err(fault) => lower(form.term()) == Err::<Datum, Fault>(fault),
        },
    decreases form, 0nat,
{
    match form {
        Form::Nil => Ok(Value::Nil),
        Form::Bool(b) => Ok(Value::Bool(*b)),
        Form::Number(n) => Ok(Value::Number(*n)),
        Form::String(raw) => Ok(Value::String(resolve_escapes(raw.as_str()))),
        Form::Keyword(id, ns) => Ok(Value::Keyword(id.clone(), crate::value::clone_opt_text(ns))),
        Form::Symbol(id, ns) => Ok(Value::Symbol(id.clone(), crate::value::clone_opt_text(ns))),
        Form::Comment(_) => Ok(Value::Nil),
        Form::Whitespace(_) => Ok(Value::Nil),
        Form::List(items) => match lower_run(items) {
            Ok(values) => Ok(Value::List(list_from_vec(values))),
            Err(e) => Err(e),
        },
        Form::Vector(items) => match lower_run(items) {
            Ok(values) => Ok(Value::Vector(vector_from_vec(values))),
            Err(e) => Err(e),
        },
        Form::HashMap(items) => match lower_run(items) {
            Ok(values) => {
                if values.len() % 2 != 0 {
                    Err(Fault::OddMap)
                } else {
                    Ok(crate::maps::map_with_entries(values))
                }
            },
            Err(e) => Err(e),
        },
        Form::HashSet(items) => match lower_run(items) {
            Ok(values) => Ok(crate::maps::set_with_values(values)),
            Err(e) => Err(e),
        },
    }
}

/// The reader's error for a fault at a place.
pub fn fault_error(fault: Fault, at: usize) -> (e: ReaderError)
    ensures
        e@ == fault_failure(fault, at as int),
{
    if fault == Fault::UnbalancedCloser {
        return ReaderError::ExtraneousInput;
    }
    let mut out: Vec<char> = Vec::new();
    match fault {
        Fault::UnexpectedEnd => push_str(&mut out, "unexpected end of input"),
        Fault::UnexpectedCharacter => push_str(&mut out, "unexpected character"),
        Fault::UnbalancedCloser => push_str(&mut out, "unbalanced closing bracket"),
        Fault::NumberOutOfRange => push_str(&mut out, "number out of range"),
        Fault::OddMap => push_str(&mut out, "map literal needs an even number of forms"),
    }
    push_str(&mut out, " at position ");
    push_digits(&mut out, at as u64);
    assert(out@ =~= fault_text(fault) + " at position "@ + digits(at as nat));
    ReaderError::ParserError(string_of(&out))
}

/// Reads a text into forms, blanks and comments included.
///
/// Succeeds exactly when the whole text is a run of forms in which every
/// map holds an even number of forms that are neither blanks nor comments;
/// the error says what is wrong with the text and where.
pub fn read(input: &str) -> (r: Result<Vec<Form>, ReaderError>)
    ensures
        match r {
            Ok(forms) => parse(input@) matches Ok((found, _)) && found == terms(forms@),
            Err(e) => parse(input@) matches Err((fault, at)) && e@ == fault_failure(fault, at),
        },
{
    let chars = chars_of(input);
    match read_forms(&chars, 0, None) {
        Ok((forms, _)) => Ok(forms),
        Err((fault, at)) => Err(fault_error(fault, at)),
    }
}

/// Turns forms into values, blanks and comments left out.
///
/// Fails exactly when a map among the forms has a key without a value.
pub fn lower_forms(forms: &Vec<Form>) -> (r: Result<Vec<Value>, Fault>)
    ensures
        match r {
            Ok(values) => lower_all(terms(forms@), forms.len() as nat) == Ok::<Seq<Datum>, Fault>(data(values@)),
            Err(fault) => lower_all(terms(forms@), forms.len() as nat) == Err::<Seq<Datum>, Fault>(fault),
        },
{
    lower_run(forms)
}

/// Reads a text into values.
pub fn read_values(input: &str) -> (r: Result<Vec<Value>, ReaderError>)
    ensures
        match r {
            Ok(values) => read_spec(input@) == Ok::<Seq<Datum>, Failure>(data(values@)),
            Err(e) => read_spec(input@) == Err::<Seq<Datum>, Failure>(e@),
        },
{
    let chars = chars_of(input);
    match read_forms(&chars, 0, None) {
        Ok((forms, _)) => match lower_run(&forms) {
            Ok(values) => Ok(values),
            Err(fault) => Err(fault_error(fault, chars.len())),
        },
        Err((fault, at)) => Err(fault_error(fault, at)),
    }
}

/// The text of a form: what the reader kept of the text it was read
/// from. A comment is written without the line end that closed it.
pub open spec fn unparse(x: Syntax) -> Seq<char>
    decreases x, 0nat,
{
    match x {
        Syntax::Nil => "nil"@,
        Syntax::Bool(b) => if b {
            "true"@
        } else {
            "false"@
        },
        Syntax::Number(n) => crate::text::decimal(n as int),
        Syntax::String(raw) => seq!['"'] + raw + seq!['"'],
        Syntax::Keyword(id, ns) => seq![':'] + crate::printer::qualified(id, ns),
        Syntax::Symbol(id, ns) => crate::printer::qualified(id, ns),
        Syntax::Comment(text) => seq![';'] + text,
        Syntax::Whitespace(text) => text,
        Syntax::List(xs) => seq!['('] + unparse_all(xs, xs.len()) + seq![')'],
        Syntax::Vector(xs) => seq!['['] + unparse_all(xs, xs.len()) + seq![']'],
        Syntax::HashMap(xs) => seq!['{'] + unparse_all(xs, xs.len()) + seq!['}'],
        Syntax::HashSet(xs) => seq!['#', '{'] + unparse_all(xs, xs.len()) + seq!['}'],
    }
}

/// The texts of the first `n` forms of a run, one after the other.
pub open spec fn unparse_all(xs: Seq<Syntax>, n: nat) -> Seq<char>
    decreases xs, n,
{
    if n == 0 || n > xs.len() {
        Seq::empty()
    } else {
        unparse_all(xs, (n - 1) as nat) + unparse(xs[n - 1])
    }
}

/// Appends the texts of a run of forms.
pub fn write_forms(out: &mut Vec<char>, forms: &Vec<Form>)
    ensures
        final(out)@ == old(out)@ + unparse_all(terms(forms@), forms.len() as nat),
    decreases forms, 1nat,
{
    let mut i: usize = 0;
    assert(out@ =~= old(out)@ + unparse_all(terms(forms@), 0));
    while i < forms.len()
        invariant
            0 <= i <= forms.len(),
            out@ == old(out)@ + unparse_all(terms(forms@), i as nat),
        decreases forms.len() - i,
    {
        assert(terms(forms@)[i as int] == forms[i as int].term());
        write_form(out, &forms[i]);
        i = i + 1;
        assert(out@ =~= old(out)@ + unparse_all(terms(forms@), i as nat));
    }
}

/// Appends the text of a form.
pub fn write_form(out: &mut Vec<char>, form: &Form)
    ensures
        final(out)@ == old(out)@ + unparse(form.term()),
    decreases form, 0nat,
{
    match form {
        Form::Nil => push_str(out, "nil"),
        Form::Bool(b) => {
            if *b {
                push_str(out, "true")
            } else {
                push_str(out, "false")
            }
        },
        Form::Number(n) => crate::text::push_decimal(out, *n),
        Form::String(raw) => {
            out.push('"');
            push_str(out, raw.as_str());
            out.push('"');
            assert(out@ =~= old(out)@ + unparse(form.term()));
        },
        Form::Keyword(id, ns) => {
            out.push(':');
            crate::printer::write_qualified(out, id, ns);
            assert(out@ =~= old(out)@ + unparse(form.term()));
        },
        Form::Symbol(id, ns) => crate::printer::write_qualified(out, id, ns),
        Form::Comment(text) => {
            out.push(';');
            push_str(out, text.as_str());
            assert(out@ =~= old(out)@ + unparse(form.term()));
        },
        Form::Whitespace(text) => push_str(out, text.as_str()),
        Form::List(items) => {
            out.push('(');
            write_forms(out, items);
            out.push(')');
            assert(out@ =~= old(out)@ + unparse(form.term()));
        },
        Form::Vector(items) => {
            out.push('[');
            write_forms(out, items);
            out.push(']');
            assert(out@ =~= old(out)@ + unparse(form.term()));
        },
        Form::HashMap(items) => {
            out.push('{');
            write_forms(out, items);
            out.push('}');
            assert(out@ =~= old(out)@ + unparse(form.term()));
        },
        Form::HashSet(items) => {
            out.push('#');
            out.push('{');
            write_forms(out, items);
            out.push('}');
            assert(out@ =~= old(out)@ + unparse(form.term()));
        },
    }
}

impl Form {
    /// The text of the form.
    pub fn to_text(&self) -> (s: String)
        ensures
            s@ == unparse(self.term()),
    {
        let mut out: Vec<char> = Vec::new();
        write_form(&mut out, self);
        assert(out@ =~= unparse(self.term()));
        string_of(&out)
    }
}

} // verus!
