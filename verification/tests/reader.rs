use sigil::reader::{read, Form};

#[allow(non_upper_case_globals)]
const Nil: Form = Form::Nil;

#[allow(non_snake_case)]
fn Bool(b: bool) -> Form {
    Form::Bool(b)
}

#[allow(non_snake_case)]
fn Number(n: i64) -> Form {
    Form::Number(n)
}

#[allow(non_snake_case)]
fn String(s: &str) -> Form {
    Form::String(s.to_string())
}

#[allow(non_snake_case)]
fn Keyword(id: &str, ns: Option<&str>) -> Form {
    Form::Keyword(id.to_string(), ns.map(|n| n.to_string()))
}

#[allow(non_snake_case)]
fn Symbol(id: &str, ns: Option<&str>) -> Form {
    Form::Symbol(id.to_string(), ns.map(|n| n.to_string()))
}

#[allow(non_snake_case)]
fn Comment(s: &str) -> Form {
    Form::Comment(s.to_string())
}

#[allow(non_snake_case)]
fn Whitespace(s: &str) -> Form {
    Form::Whitespace(s.to_string())
}

#[allow(non_snake_case)]
fn List(forms: Vec<Form>) -> Form {
    Form::List(forms)
}

#[allow(non_snake_case)]
fn Vector(forms: Vec<Form>) -> Form {
    Form::Vector(forms)
}

#[allow(non_snake_case)]
fn HashMap(forms: Vec<Form>) -> Form {
    Form::HashMap(forms)
}

#[allow(non_snake_case)]
fn HashSet(forms: Vec<Form>) -> Form {
    Form::HashSet(forms)
}

#[test]
fn test_read_basic() {
    let cases = vec![
        ("1337", vec![Number(1337)]),
        ("nil", vec![Nil]),
        ("true", vec![Bool(true)]),
        ("false", vec![Bool(false)]),
        (",,,", vec![Whitespace(",,,")]),
        ("  ", vec![Whitespace("  ")]),
        (" , ", vec![Whitespace(" , ")]),
        (
            "true, , , false",
            vec![Bool(true), Whitespace(", , , "), Bool(false)],
        ),
        ("", vec![]),
        ("baz", vec![Symbol("baz", None)]),
        ("foo/baz", vec![Symbol("baz", Some("foo"))]),
        (
            "foo/baz bar true",
            vec![
                Symbol("baz", Some("foo")),
                Whitespace(" "),
                Symbol("bar", None),
                Whitespace(" "),
                Bool(true),
            ],
        ),
        ("\"\"", vec![String("")]),
        ("\"hi\"", vec![String("hi")]),
        (
            "\"123foo\" true",
            vec![String("123foo"), Whitespace(" "), Bool(true)],
        ),
        (r#""abc""#, vec![String("abc")]),
        (":foobar", vec![Keyword("foobar", None)]),
        (":net/hi", vec![Keyword("hi", Some("net"))]),
        (":a0987234", vec![Keyword("a0987234", None)]),
        (
            "; sdlkfjsldfjsldjflsdjf",
            vec![Comment(" sdlkfjsldfjsldjflsdjf")],
        ),
        (
            "foo/bar true ;; some comment",
            vec![
                Symbol("bar", Some("foo")),
                Whitespace(" "),
                Bool(true),
                Whitespace(" "),
                Comment("; some comment"),
            ],
        ),
        (
            "baz ;; comment \nfoo12",
            vec![
                Symbol("baz", None),
                Whitespace(" "),
                Comment("; comment "),
                Symbol("foo12", None),
            ],
        ),
        ("()", vec![List(vec![])]),
        (
            "(a b c)",
            vec![List(vec![
                Symbol("a", None),
                Whitespace(" "),
                Symbol("b", None),
                Whitespace(" "),
                Symbol("c", None),
            ])],
        ),
        (
            "(12 :foo/bar \"extra\")",
            vec![List(vec![
                Number(12),
                Whitespace(" "),
                Keyword("bar", Some("foo")),
                Whitespace(" "),
                String("extra"),
            ])],
        ),
        ("[]", vec![Vector(vec![])]),
        (
            "[a b c]",
            vec![Vector(vec![
                Symbol("a", None),
                Whitespace(" "),
                Symbol("b", None),
                Whitespace(" "),
                Symbol("c", None),
            ])],
        ),
        (
            "[12 :foo/bar \"extra\"]",
            vec![Vector(vec![
                Number(12),
                Whitespace(" "),
                Keyword("bar", Some("foo")),
                Whitespace(" "),
                String("extra"),
            ])],
        ),
        ("{}", vec![HashMap(vec![])]),
        ("() []", vec![List(vec![]), Whitespace(" "), Vector(vec![])]),
        ("(())", vec![List(vec![List(vec![])])]),
        ("(([]))", vec![List(vec![List(vec![Vector(vec![])])])]),
        (
            "(([]))()",
            vec![List(vec![List(vec![Vector(vec![])])]), List(vec![])],
        ),
        (
            "(12 (true [34 false]))(), (7)",
            vec![
                List(vec![
                    Number(12),
                    Whitespace(" "),
                    List(vec![
                        Bool(true),
                        Whitespace(" "),
                        Vector(vec![Number(34), Whitespace(" "), Bool(false)]),
                    ]),
                ]),
                List(vec![]),
                Whitespace(", "),
                List(vec![Number(7)]),
            ],
        ),
        ("#{}", vec![HashSet(vec![])]),
        (
            "#{1 2 3}",
            vec![HashSet(vec![
                Number(1),
                Whitespace(" "),
                Number(2),
                Whitespace(" "),
                Number(3),
            ])],
        ),
        (
            "#{(1 3) :foo}",
            vec![HashSet(vec![
                List(vec![Number(1), Whitespace(" "), Number(3)]),
                Whitespace(" "),
                Keyword("foo", None),
            ])],
        ),
        (
            "+ ! =",
            vec![
                Symbol("+", None),
                Whitespace(" "),
                Symbol("!", None),
                Whitespace(" "),
                Symbol("=", None),
            ],
        ),
        (
            "(defn foo [a] (+ a 1))",
            vec![List(vec![
                Symbol("defn", None),
                Whitespace(" "),
                Symbol("foo", None),
                Whitespace(" "),
                Vector(vec![Symbol("a", None)]),
                Whitespace(" "),
                List(vec![
                    Symbol("+", None),
                    Whitespace(" "),
                    Symbol("a", None),
                    Whitespace(" "),
                    Number(1),
                ]),
            ])],
        ),
    ];
    // A map takes its forms in pairs: with three forms these two texts are
    // no map, and the reader says so.
    for input in ["{a b c}", "{12 :foo/bar \"extra\"}"] {
        match read(input) {
            Ok(_) => panic!("`{}` was read", input),
            Err(e) => assert_eq!(
                e.message(),
                "reader error: map literal needs an even number of forms at position 0"
            ),
        }
    }
    assert_eq!(
        read("{a b c d}").ok().unwrap(),
        vec![HashMap(vec![
            Symbol("a", None),
            Whitespace(" "),
            Symbol("b", None),
            Whitespace(" "),
            Symbol("c", None),
            Whitespace(" "),
            Symbol("d", None),
        ])]
    );
    for (input, expected) in cases {
        match read(input) {
            Ok(result) => assert_eq!(result, expected),
            Err(e) => {
                panic!("{}", e.message());
            }
        }
    }
}
