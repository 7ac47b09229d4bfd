//! Derivation of the names of generated builder capabilities and methods.
use vstd::prelude::*;
use crate::text::{chars_of, string_of};

verus! {

/// Whether `c` has the Unicode `Uppercase` property.
pub uninterp spec fn is_uppercase_char(c: char) -> bool;

/// Relies on `char::is_uppercase`: the Unicode `Uppercase` property of `c`,
/// which among ASCII characters holds of `'A'..='Z'` alone.
#[verifier::external_body]
fn is_uppercase(c: char) -> (r: bool)
    ensures
        r == is_uppercase_char(c),
        (c as u32) < 128 ==> (r <==> ('A' <= c && c <= 'Z')),
{
    c.is_uppercase()
}

/// ASCII letters 'A'..='Z' mapped to 'a'..='z'; every other character kept.
pub open spec fn ascii_lower(c: char) -> char {
    if 'A' <= c && c <= 'Z' {
        ((c as u8) + 32) as char
    } else {
        c
    }
}

pub fn to_ascii_lower(c: char) -> (r: char)
    ensures
        r == ascii_lower(c),
{
    if 'A' <= c && c <= 'Z' {
        ((c as u8) + 32) as char
    } else {
        c
    }
}

/// Lower snake case of `s`, where `up[k]` says whether `s[k]` is uppercase:
/// every uppercase character after the first is preceded by an underscore,
/// and ASCII letters are lowered.
pub open spec fn snake_with(s: Seq<char>, up: Seq<bool>) -> Seq<char>
    decreases s.len(),
{
    if s.len() == 0 {
        seq![]
    } else {
        let last = s.last();
        let pre = snake_with(s.drop_last(), up.drop_last());
        if s.len() > 1 && up[s.len() - 1] {
            pre.push('_').push(ascii_lower(last))
        } else {
            pre.push(ascii_lower(last))
        }
    }
}

/// Whether each character of `s` is uppercase.
pub open spec fn upper_flags(s: Seq<char>) -> Seq<bool> {
    Seq::new(s.len(), |k: int| is_uppercase_char(s[k]))
}

/// Lower snake case of an identifier.
pub open spec fn snake_case(s: Seq<char>) -> Seq<char> {
    snake_with(s, upper_flags(s))
}

/// The suffix that is stripped from snake-cased names.
pub open spec fn error_suffix() -> Seq<char> {
    seq!['_', 'e', 'r', 'r', 'o', 'r']
}

pub open spec fn ends_with_error(s: Seq<char>) -> bool {
    s.len() >= 6 && s.subrange(s.len() - 6, s.len() as int) == error_suffix()
}

/// `s` with one trailing `_error` removed, if it ends with one.
pub open spec fn strip_error(s: Seq<char>) -> Seq<char> {
    if ends_with_error(s) {
        s.subrange(0, s.len() - 6)
    } else {
        s
    }
}

/// Base name of the builder methods for a type or variant identifier.
pub open spec fn base_name(ident: Seq<char>) -> Seq<char> {
    strip_error(snake_case(ident))
}

pub open spec fn throw_name(ident: Seq<char>) -> Seq<char> {
    seq!['t', 'h', 'r', 'o', 'w', '_'] + base_name(ident)
}

pub open spec fn throw_with_name(ident: Seq<char>) -> Seq<char> {
    throw_name(ident) + seq!['_', 'w', 'i', 't', 'h']
}

fn snake_chars(s: &Vec<char>, up: &Vec<bool>) -> (r: Vec<char>)
    requires
        up@.len() == s@.len(),
    ensures
        r@ == snake_with(s@, up@),
{
    let mut r: Vec<char> = Vec::new();
    let mut i: usize = 0;
    while i < s.len()
        invariant
            i <= s.len(),
            up@.len() == s@.len(),
            r@ == snake_with(s@.subrange(0, i as int), up@.subrange(0, i as int)),
        decreases s.len() - i,
    {
        let c = s[i];
        if i > 0 && up[i] {
            r.push('_');
        }
        r.push(to_ascii_lower(c));
        proof {
            let t = s@.subrange(0, i + 1);
            let u = up@.subrange(0, i + 1);
            assert(t.drop_last() =~= s@.subrange(0, i as int));
            assert(u.drop_last() =~= up@.subrange(0, i as int));
            assert(t.last() == c);
            assert(u[i as int] == up@[i as int]);
        }
        i += 1;
    }
    assert(s@.subrange(0, s.len() as int) =~= s@);
    assert(up@.subrange(0, s.len() as int) =~= up@);
    r
}

/// Lower snake case of `s`, given in `upper[k]` whether its `k`-th character
/// is uppercase.
pub fn snake_from_flags(s: &str, upper: &Vec<bool>) -> (r: String)
    requires
        upper@.len() == s@.len(),
    ensures
        r@ == snake_with(s@, upper@),
{
    let cs = chars_of(s);
    string_of(&snake_chars(&cs, upper))
}

/// Base name of the builder methods for `ident`, given in `upper[k]`
/// whether its `k`-th character is uppercase: the lower snake case with one
/// trailing `_error` removed.
pub fn base_name_from_flags(ident: &str, upper: &Vec<bool>) -> (r: String)
    requires
        upper@.len() == ident@.len(),
    ensures
        r@ == strip_error(snake_with(ident@, upper@)),
{
    let cs = chars_of(ident);
    let mut r = snake_chars(&cs, upper);
    if is_error_suffix(&r) {
        let ghost prev = r@;
        let n = r.len();
        r.truncate(n - 6);
        assert(r@ =~= prev.subrange(0, prev.len() - 6));
    }
    string_of(&r)
}

fn is_error_suffix(r: &Vec<char>) -> (b: bool)
    ensures
        b == ends_with_error(r@),
{
    let n = r.len();
    if n < 6 {
        return false;
    }
    let b = r[n - 6] == '_' && r[n - 5] == 'e' && r[n - 4] == 'r' && r[n - 3] == 'r'
        && r[n - 2] == 'o' && r[n - 1] == 'r';
    proof {
        let t = r@.subrange(n - 6, n as int);
        if b {
            assert(t =~= error_suffix());
        } else if t == error_suffix() {
            assert(t[0] == r@[n - 6]);
            assert(t[1] == r@[n - 5]);
            assert(t[2] == r@[n - 4]);
            assert(t[3] == r@[n - 3]);
            assert(t[4] == r@[n - 2]);
            assert(t[5] == r@[n - 1]);
        }
    }
    b
}

/// Base name of the builder methods: the lower snake case of `ident` with
/// trailing `_error` segments removed (`InvalidIoError` gives `invalid_io`).
pub fn method_base_name(ident: &str) -> (r: String)
    ensures
        r@ == base_name(ident@),
{
    let cs = chars_of(ident);
    let mut upper: Vec<bool> = Vec::new();
    let mut i: usize = 0;
    while i < cs.len()
        invariant
            i <= cs@.len(),
            cs@ == ident@,
            upper@ == upper_flags(ident@).subrange(0, i as int),
        decreases cs.len() - i,
    {
        upper.push(is_uppercase(cs[i]));
        assert(upper@ =~= upper_flags(ident@).subrange(0, i + 1));
        i += 1;
    }
    assert(upper@ =~= upper_flags(ident@));
    base_name_from_flags(ident, &upper)
}

} // verus!
