//! The reserved names under which a function's operands are bound.
//!
//! The parameter at place `index` of a function analyzed at nesting level
//! `level` is bound under `:system-fn-%<index>/<level>`.
use crate::text::{
    all_digits, chars_of, digits, digits_value, push_digits, push_str, read_digits, string_of,
};
use vstd::prelude::*;

verus! {

/// What every reserved name starts with.
pub open spec fn key_prefix() -> Seq<char> {
    ":system-fn-%"@
}

/// The reserved name of a parameter.
pub open spec fn parameter_key(index: nat, level: nat) -> Seq<char> {
    key_prefix() + digits(index) + seq!['/'] + digits(level)
}

/// Where the last slash of a name before `n` is; -1 where there is none.
pub open spec fn last_slash(key: Seq<char>, n: int) -> int
    decreases n,
{
    if n <= 0 || n > key.len() {
        -1
    } else if key[n - 1] == '/' {
        n - 1
    } else {
        last_slash(key, n - 1)
    }
}

/// The level that a reserved name encodes: the number after its last
/// slash. Nothing for a name that is not reserved.
pub open spec fn parameter_level(key: Seq<char>) -> Option<usize> {
    let prefix = key_prefix();
    if key.len() >= prefix.len() && key.take(prefix.len() as int) == prefix {
        let k = last_slash(key, key.len() as int);
        let tail = key.skip(k + 1);
        if k >= 0 && tail.len() > 0 && all_digits(tail) && digits_value(tail) <= usize::MAX {
            Some(digits_value(tail) as usize)
        } else {
            None
        }
    } else {
        None
    }
}

/// The reserved name of a parameter.
pub fn lambda_parameter_key(index: usize, level: usize) -> (key: String)
    ensures
        key@ == parameter_key(index as nat, level as nat),
{
    let mut out: Vec<char> = Vec::new();
    push_str(&mut out, ":system-fn-%");
    push_digits(&mut out, index as u64);
    out.push('/');
    push_digits(&mut out, level as u64);
    assert(out@ =~= parameter_key(index as nat, level as nat));
    string_of(&out)
}

/// The level that a reserved name encodes.
pub fn get_lambda_parameter_level(key: &str) -> (r: Option<usize>)
    ensures
        r == parameter_level(key@),
{
    let chars = chars_of(key);
    let prefix = chars_of(":system-fn-%");
    if chars.len() < prefix.len() {
        return None;
    }
    let mut i: usize = 0;
    while i < prefix.len()
        invariant
            0 <= i <= prefix.len() <= chars.len(),
            chars@ == key@,
            prefix@ == key_prefix(),
            forall|j: int| 0 <= j < i ==> chars@[j] == prefix@[j],
        decreases prefix.len() - i,
    {
        if chars[i] != prefix[i] {
            assert(chars@.take(prefix.len() as int)[i as int] != prefix@[i as int]);
            return None;
        }
        i = i + 1;
    }
    assert(chars@.take(prefix.len() as int) =~= prefix@);
    let mut n: usize = chars.len();
    while n > 0 && chars[n - 1] != '/'
        invariant
            0 <= n <= chars.len(),
            last_slash(chars@, chars.len() as int) == last_slash(chars@, n as int),
        decreases n,
    {
        n = n - 1;
    }
    if n == 0 {
        return None;
    }
    assert(chars@.skip(n as int) =~= chars@.subrange(n as int, chars.len() as int));
    match read_digits(&chars, n, chars.len()) {
        Some(value) => {
            if value > usize::MAX as u64 {
                None
            } else {
                Some(value as usize)
            }
        },
        None => None,
    }
}

} // verus!
