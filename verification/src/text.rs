//! Text helpers: strings as sequences of characters, and decimal numerals.
use vstd::prelude::*;
use vstd::std_specs::iter::IteratorSpec;

verus! {

/// The characters of `s`, in order.
pub fn chars_of(s: &str) -> (r: Vec<char>)
    ensures
        r@ == s@,
{
    let mut out: Vec<char> = Vec::new();
    let mut it = s.chars();
    let ghost mut n: int = 0;
    loop
        invariant
            0 <= n <= s@.len(),
            out@ == s@.take(n),
            it.remaining() == s@.skip(n),
        ensures
            out@ == s@,
        decreases s@.len() - n,
    {
        match it.next() {
            Some(c) => {
                out.push(c);
                proof {
                    n = n + 1;
                }
            },
            None => {
                assert(s@.skip(n).len() == 0);
                assert(out@ =~= s@);
                break;
            },
        }
    }
    out
}

/// Appends one character to a string.
///
/// Trusted: stands for `String::push`, which std documents as appending the
/// given `char` to the end of the string.
#[verifier::external_body]
pub(crate) fn push_char(s: &mut String, c: char)
    ensures
        final(s)@ == old(s)@.push(c),
{
    s.push(c)
}

/// Whether two string slices hold the same characters.
pub fn same_text(a: &str, b: &str) -> (r: bool)
    ensures
        r == (a@ == b@),
{
    let mut left = a.chars();
    let mut right = b.chars();
    let ghost mut n: int = 0;
    loop
        invariant
            0 <= n <= a@.len(),
            n <= b@.len(),
            left.remaining() == a@.skip(n),
            right.remaining() == b@.skip(n),
            a@.take(n) == b@.take(n),
        decreases a@.len() - n,
    {
        match left.next() {
            Some(c) => {
                match right.next() {
                    Some(d) => {
                        if c != d {
                            assert(a@[n] != b@[n]);
                            return false;
                        }
                        proof {
                            assert(a@.take(n + 1) =~= a@.take(n).push(a@[n]));
                            assert(b@.take(n + 1) =~= b@.take(n).push(b@[n]));
                            n = n + 1;
                        }
                    },
                    None => {
                        assert(b@.skip(n).len() == 0);
                        assert(a@.len() != b@.len());
                        return false;
                    },
                }
            },
            None => {
                assert(a@.skip(n).len() == 0);
                return match right.next() {
                    Some(_) => {
                        assert(a@.len() != b@.len());
                        false
                    },
                    None => {
                        assert(b@.skip(n).len() == 0);
                        assert(a@.take(n) =~= a@);
                        assert(b@.take(n) =~= b@);
                        true
                    },
                };
            },
        }
    }
}

/// The string made of the characters `chars[from..to]`.
pub fn string_of_range(chars: &Vec<char>, from: usize, to: usize) -> (s: String)
    requires
        from <= to <= chars.len(),
    ensures
        s@ == chars@.subrange(from as int, to as int),
{
    let mut out = String::new();
    let mut i: usize = from;
    while i < to
        invariant
            from <= i <= to <= chars.len(),
            out@ == chars@.subrange(from as int, i as int),
        decreases to - i,
    {
        push_char(&mut out, chars[i]);
        i = i + 1;
        assert(out@ =~= chars@.subrange(from as int, i as int));
    }
    out
}

/// The string made of `chars`.
pub fn string_of(chars: &Vec<char>) -> (s: String)
    ensures
        s@ == chars@,
{
    let s = string_of_range(chars, 0, chars.len());
    assert(chars@.subrange(0, chars.len() as int) =~= chars@);
    s
}

/// Appends the characters of `chars` to `out`.
pub fn push_chars(out: &mut Vec<char>, chars: &Vec<char>)
    ensures
        final(out)@ == old(out)@ + chars@,
{
    let mut i: usize = 0;
    while i < chars.len()
        invariant
            0 <= i <= chars.len(),
            out@ == old(out)@ + chars@.take(i as int),
        decreases chars.len() - i,
    {
        out.push(chars[i]);
        i = i + 1;
        assert(out@ =~= old(out)@ + chars@.take(i as int));
    }
    assert(chars@.take(chars.len() as int) =~= chars@);
}

/// Appends the characters of `s` to `out`.
pub fn push_str(out: &mut Vec<char>, s: &str)
    ensures
        final(out)@ == old(out)@ + s@,
{
    let chars = chars_of(s);
    push_chars(out, &chars);
}

/// Whether `c` is one of the ten decimal digits.
pub open spec fn is_digit(c: char) -> bool {
    '0' <= c <= '9'
}

/// The decimal digit that stands for `d`.
pub open spec fn digit_char(d: int) -> char {
    (('0' as u8) + d) as char
}

/// The value of the decimal digit `c`.
pub open spec fn digit_value(c: char) -> int {
    (c as u8) - ('0' as u8)
}

/// The decimal digits of a natural number, most significant first, without
/// leading zeros.
pub open spec fn digits(n: nat) -> Seq<char>
    decreases n,
{
    if n < 10 {
        seq![digit_char(n as int)]
    } else {
        digits(n / 10).push(digit_char((n % 10) as int))
    }
}

/// The decimal numeral of an integer: a minus sign for negative numbers,
/// then the digits of the magnitude.
pub open spec fn decimal(n: int) -> Seq<char> {
    if n < 0 {
        seq!['-'] + digits((-n) as nat)
    } else {
        digits(n as nat)
    }
}

/// The number that a sequence of decimal digits denotes.
pub open spec fn digits_value(s: Seq<char>) -> nat
    decreases s.len(),
{
    if s.len() == 0 {
        0
    } else {
        (digits_value(s.drop_last()) * 10 + digit_value(s.last())) as nat
    }
}

/// Whether every character of `s` is a decimal digit.
pub open spec fn all_digits(s: Seq<char>) -> bool {
    forall|i: int| 0 <= i < s.len() ==> is_digit(#[trigger] s[i])
}

/// Reading back the digits of a number gives the number.
pub proof fn lemma_digits_round_trip(n: nat)
    ensures
        all_digits(digits(n)),
        digits(n).len() >= 1,
        digits_value(digits(n)) == n,
    decreases n,
{
    if n < 10 {
        let s = digits(n);
        assert(s.drop_last() =~= Seq::<char>::empty());
        assert(digits_value(s.drop_last()) == 0);
    } else {
        lemma_digits_round_trip(n / 10);
        let s = digits(n);
        assert(s.drop_last() =~= digits(n / 10));
        assert(s.last() == digit_char((n % 10) as int));
    }
}

/// Appends the decimal digits of `n` to `out`.
pub fn push_digits(out: &mut Vec<char>, n: u64)
    ensures
        final(out)@ == old(out)@ + digits(n as nat),
    decreases n,
{
    if n < 10 {
        out.push((48u8 + (n as u8)) as char);
        assert(out@ =~= old(out)@ + digits(n as nat));
    } else {
        push_digits(out, n / 10);
        out.push((48u8 + ((n % 10) as u8)) as char);
        assert(out@ =~= old(out)@ + digits(n as nat));
    }
}

/// Appends the decimal numeral of `n` to `out`.
pub fn push_decimal(out: &mut Vec<char>, n: i64)
    ensures
        final(out)@ == old(out)@ + decimal(n as int),
{
    if n < 0 {
        out.push('-');
        let magnitude: u64 = ((-(n + 1)) as u64) + 1;
        push_digits(out, magnitude);
        assert(out@ =~= old(out)@ + decimal(n as int));
    } else {
        push_digits(out, n as u64);
    }
}

/// The decimal numeral of `n`, as a string.
pub fn decimal_string(n: i64) -> (s: String)
    ensures
        s@ == decimal(n as int),
{
    let mut out: Vec<char> = Vec::new();
    push_decimal(&mut out, n);
    assert(out@ =~= decimal(n as int));
    string_of(&out)
}

/// The decimal numeral of an index or a count, as a string.
pub fn index_string(n: usize) -> (s: String)
    ensures
        s@ == digits(n as nat),
{
    let mut out: Vec<char> = Vec::new();
    push_digits(&mut out, n as u64);
    assert(out@ =~= digits(n as nat));
    string_of(&out)
}

/// Reads `chars[from..to]` as a run of decimal digits.
///
/// Gives the number when the range is not empty, holds digits only and
/// denotes a number that fits in 64 bits; nothing otherwise.
pub fn read_digits(chars: &Vec<char>, from: usize, to: usize) -> (r: Option<u64>)
    requires
        from <= to <= chars.len(),
    ensures
        r is Some <==> {
            &&& from < to
            &&& all_digits(chars@.subrange(from as int, to as int))
            &&& digits_value(chars@.subrange(from as int, to as int)) <= u64::MAX
        },
        r matches Some(n) ==> n == digits_value(chars@.subrange(from as int, to as int)),
{
    if from == to {
        return None;
    }
    let ghost whole = chars@.subrange(from as int, to as int);
    let mut acc: u64 = 0;
    let mut i: usize = from;
    while i < to
        invariant
            from <= i <= to <= chars.len(),
            whole == chars@.subrange(from as int, to as int),
            all_digits(chars@.subrange(from as int, i as int)),
            acc == digits_value(chars@.subrange(from as int, i as int)),
        decreases to - i,
    {
        let c = chars[i];
        let ghost before = chars@.subrange(from as int, i as int);
        let ghost after = chars@.subrange(from as int, i + 1);
        proof {
            assert(after.drop_last() =~= before);
            assert(after.last() == c);
            lemma_digits_value_prefix(whole, (i + 1 - from) as int);
            assert(whole.take((i + 1 - from) as int) =~= after);
        }
        if !(c >= '0' && c <= '9') {
            assert(whole[i - from] == c);
            return None;
        }
        let d: u64 = ((c as u8) - 48u8) as u64;
        if acc > (u64::MAX - d) / 10 {
            assert(digits_value(after) > u64::MAX);
            return None;
        }
        acc = acc * 10 + d;
        i = i + 1;
        assert forall|k: int| 0 <= k < after.len() implies is_digit(#[trigger] after[k]) by {
            if k < before.len() {
                assert(after[k] == before[k]);
            }
        }
    }
    Some(acc)
}

/// A prefix of a run of digits denotes no more than the whole run.
pub proof fn lemma_digits_value_prefix(s: Seq<char>, k: int)
    requires
        0 <= k <= s.len(),
    ensures
        all_digits(s) ==> all_digits(s.take(k)),
        all_digits(s) ==> digits_value(s.take(k)) <= digits_value(s),
    decreases s.len() - k,
{
    if all_digits(s) {
        assert forall|i: int| 0 <= i < s.take(k).len() implies is_digit(#[trigger] s.take(k)[i]) by {
            assert(s.take(k)[i] == s[i]);
        }
        if k == s.len() {
            assert(s.take(k) =~= s);
        } else {
            lemma_digits_value_prefix(s, k + 1);
            let t = s.take(k + 1);
            assert(t.drop_last() =~= s.take(k));
            assert(is_digit(t.last())) by {
                assert(t.last() == s[k]);
            }
        }
    }
}

} // verus!
