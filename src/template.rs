//! Display templates: a literal text with `{field}` / `{index}` interpolations.
use vstd::prelude::*;
use crate::text::chars_of;

verus! {

/// What an interpolation names: a field by name, or a field by position.
pub enum ArgRef {
    Name { name: String },
    Index { index: usize },
}

/// One piece of a parsed template: a literal character, or an interpolation
/// with its format specification (the text after `:`, possibly empty).
pub enum Piece {
    Lit { c: char },
    Arg { arg: ArgRef, spec: String },
}

pub enum ArgRefV {
    Name(Seq<char>),
    Index(nat),
}

pub enum PieceV {
    Lit(char),
    Arg(ArgRefV, Seq<char>),
}

impl View for ArgRef {
    type V = ArgRefV;

    open spec fn view(&self) -> ArgRefV {
        match self {
            ArgRef::Name { name } => ArgRefV::Name(name@),
            ArgRef::Index { index } => ArgRefV::Index(*index as nat),
        }
    }
}

impl View for Piece {
    type V = PieceV;

    open spec fn view(&self) -> PieceV {
        match self {
            Piece::Lit { c } => PieceV::Lit(*c),
            Piece::Arg { arg, spec } => PieceV::Arg(arg@, spec@),
        }
    }
}

pub open spec fn pieces_view(v: Seq<Piece>) -> Seq<PieceV> {
    v.map_values(|p: Piece| p@)
}

pub open spec fn is_digit(c: char) -> bool {
    '0' <= c && c <= '9'
}

pub open spec fn is_ident_start(c: char) -> bool {
    ('a' <= c && c <= 'z') || ('A' <= c && c <= 'Z') || c == '_'
}

pub open spec fn is_ident_char(c: char) -> bool {
    is_ident_start(c) || is_digit(c)
}

/// The decimal value of a sequence of digits.
pub open spec fn dec_value(s: Seq<char>) -> nat
    decreases s.len(),
{
    if s.len() == 0 {
        0
    } else {
        dec_value(s.drop_last()) * 10 + ((s.last() as nat) - ('0' as nat)) as nat
    }
}

/// The first position at or after `j` that holds `c`, or the length of `s`.
pub open spec fn find_char(s: Seq<char>, j: int, c: char) -> int
    decreases s.len() - j,
{
    if j >= s.len() {
        s.len() as int
    } else if s[j] == c {
        j
    } else {
        find_char(s, j + 1, c)
    }
}

/// What the text between the braces of an interpolation names: up to nine
/// digits name a position, an ASCII identifier names a field.
pub open spec fn parse_arg(a: Seq<char>) -> Option<ArgRefV> {
    if a.len() == 0 {
        None
    } else if forall|k: int| 0 <= k < a.len() ==> is_digit(#[trigger] a[k]) {
        if a.len() <= 9 {
            Some(ArgRefV::Index(dec_value(a)))
        } else {
            None
        }
    } else if is_ident_start(a[0]) && forall|k: int| 0 <= k < a.len() ==> is_ident_char(#[trigger] a[k]) {
        Some(ArgRefV::Name(a))
    } else {
        None
    }
}

/// The interpolation written between braces: the argument, then an optional
/// `:` and format specification; no brace inside.
pub open spec fn parse_interp(inner: Seq<char>) -> Option<PieceV> {
    let colon = find_char(inner, 0, ':');
    if find_char(inner, 0, '{') < inner.len() {
        None
    } else {
        match parse_arg(inner.subrange(0, colon)) {
            Some(a) => Some(
                PieceV::Arg(
                    a,
                    if colon < inner.len() {
                        inner.subrange(colon + 1, inner.len() as int)
                    } else {
                        seq![]
                    },
                ),
            ),
            None => None,
        }
    }
}

pub open spec fn prepend(p: PieceV, rest: Option<Seq<PieceV>>) -> Option<Seq<PieceV>> {
    match rest {
        Some(r) => Some(seq![p] + r),
        None => None,
    }
}

/// The pieces of the template text `s` from position `i` on; `None` when the
/// text is malformed (an unmatched brace, or an interpolation that names
/// nothing).
pub open spec fn parse_from(s: Seq<char>, i: int) -> Option<Seq<PieceV>>
    decreases s.len() - i,
{
    if i < 0 || i >= s.len() {
        Some(seq![])
    } else if s[i] == '{' && i + 1 < s.len() && s[i + 1] == '{' {
        prepend(PieceV::Lit('{'), parse_from(s, i + 2))
    } else if s[i] == '}' {
        if i + 1 < s.len() && s[i + 1] == '}' {
            prepend(PieceV::Lit('}'), parse_from(s, i + 2))
        } else {
            None
        }
    } else if s[i] == '{' {
        let k = find_char(s, i + 1, '}');
        if k >= s.len() || k <= i {
            None
        } else {
            match parse_interp(s.subrange(i + 1, k)) {
                Some(p) => prepend(p, parse_from(s, k + 1)),
                None => None,
            }
        }
    } else {
        prepend(PieceV::Lit(s[i]), parse_from(s, i + 1))
    }
}

pub open spec fn parse_template(s: Seq<char>) -> Option<Seq<PieceV>> {
    parse_from(s, 0)
}

pub open spec fn join(acc: Seq<PieceV>, rest: Option<Seq<PieceV>>) -> Option<Seq<PieceV>> {
    match rest {
        Some(r) => Some(acc + r),
        None => None,
    }
}

proof fn lemma_find_char_bounds(s: Seq<char>, j: int, c: char)
    requires
        0 <= j,
    ensures
        j <= find_char(s, j, c) || j > s.len(),
        find_char(s, j, c) <= s.len(),
        find_char(s, j, c) < s.len() ==> s[find_char(s, j, c)] == c,
        forall|m: int| j <= m < find_char(s, j, c) ==> s[m] != c,
    decreases s.len() - j,
{
    if j < s.len() && s[j] != c {
        lemma_find_char_bounds(s, j + 1, c);
    }
}

fn find_char_exec(s: &Vec<char>, j: usize, c: char) -> (r: usize)
    requires
        j <= s.len(),
    ensures
        r as int == find_char(s@, j as int, c),
{
    let mut k = j;
    while k < s.len()
        invariant
            j <= k <= s.len(),
            find_char(s@, j as int, c) == find_char(s@, k as int, c),
        decreases s.len() - k,
    {
        if s[k] == c {
            return k;
        }
        k += 1;
    }
    k
}

fn is_digit_exec(c: char) -> (r: bool)
    ensures
        r == is_digit(c),
{
    '0' <= c && c <= '9'
}

fn is_ident_char_exec(c: char) -> (r: bool)
    ensures
        r == is_ident_char(c),
{
    ('a' <= c && c <= 'z') || ('A' <= c && c <= 'Z') || c == '_' || ('0' <= c && c <= '9')
}

proof fn lemma_dec_value_bound(s: Seq<char>)
    requires
        forall|k: int| 0 <= k < s.len() ==> is_digit(#[trigger] s[k]),
    ensures
        dec_value(s) < pow10(s.len()),
    decreases s.len(),
{
    if s.len() > 0 {
        let t = s.drop_last();
        assert forall|k: int| 0 <= k < t.len() implies is_digit(#[trigger] t[k]) by {
            assert(t[k] == s[k]);
        }
        lemma_dec_value_bound(t);
        assert(is_digit(s[s.len() - 1]));
        let dv: int = dec_value(t) as int;
        let d: int = ((s.last() as nat) - ('0' as nat)) as int;
        let p: int = pow10(t.len()) as int;
        assert(dec_value(s) == dv * 10 + d);
        assert(pow10(s.len()) == p * 10);
        assert(dv * 10 + d < p * 10) by (nonlinear_arith)
            requires
                dv < p,
                0 <= d < 10,
        ;
    }
}

pub open spec fn pow10(n: nat) -> nat
    decreases n,
{
    if n == 0 {
        1
    } else {
        pow10((n - 1) as nat) * 10
    }
}

fn sub_string(s: &Vec<char>, a: usize, b: usize) -> (r: String)
    requires
        a <= b <= s.len(),
    ensures
        r@ == s@.subrange(a as int, b as int),
{
    let mut r = String::new();
    let mut k = a;
    while k < b
        invariant
            a <= k <= b <= s.len(),
            r@ == s@.subrange(a as int, k as int),
        decreases b - k,
    {
        crate::text::push_char(&mut r, s[k]);
        k += 1;
        assert(r@ =~= s@.subrange(a as int, k as int));
    }
    r
}

/// Parses `inner`, the text `s[a..b]` between the braces of an interpolation.
fn parse_interp_exec(s: &Vec<char>, a: usize, b: usize) -> (r: Option<Piece>)
    requires
        a <= b <= s.len(),
    ensures
        match r {
            Some(p) => parse_interp(s@.subrange(a as int, b as int)) == Some(p@),
            None => parse_interp(s@.subrange(a as int, b as int)) is None,
        },
{
    let ghost inner = s@.subrange(a as int, b as int);
    let open_pos = find_char_exec(s, a, '{');
    let colon_pos = find_char_exec(s, a, ':');
    let colon = if colon_pos < b { colon_pos } else { b };
    proof {
        lemma_find_char_bounds(s@, a as int, '{');
        lemma_find_char_bounds(s@, a as int, ':');
        lemma_find_char_bounds(inner, 0, '{');
        lemma_find_char_bounds(inner, 0, ':');
        lemma_find_char_shift(s@, a as int, b as int, 0, '{');
        lemma_find_char_shift(s@, a as int, b as int, 0, ':');
    }
    if open_pos < b {
        return None;
    }
    let ghost argv = inner.subrange(0, colon - a);
    assert(argv =~= s@.subrange(a as int, colon as int));
    if colon == a {
        return None;
    }
    let mut all_digits = true;
    let mut ident = true;
    let mut value: usize = 0;
    let mut k = a;
    while k < colon
        invariant
            a <= k <= colon <= b <= s.len(),
            argv == s@.subrange(a as int, colon as int),
            all_digits == forall|m: int| a <= m < k ==> is_digit(#[trigger] s@[m]),
            ident == forall|m: int| a <= m < k ==> is_ident_char(#[trigger] s@[m]),
            all_digits && k - a <= 9 ==> value == dec_value(s@.subrange(a as int, k as int)),
        decreases colon - k,
    {
        let c = s[k];
        if all_digits && k - a < 9 && is_digit_exec(c) {
            proof {
                let t = s@.subrange(a as int, k as int);
                assert forall|m: int| 0 <= m < t.len() implies is_digit(#[trigger] t[m]) by {
                    assert(t[m] == s@[a + m]);
                }
                lemma_dec_value_bound(t);
                assert(pow10(t.len()) <= 100000000) by {
                    lemma_pow10_mono(t.len(), 8);
                    reveal_with_fuel(pow10, 9);
                }
                let u = s@.subrange(a as int, k + 1);
                assert(u.drop_last() =~= t);
            }
            value = value * 10 + ((c as u32) - ('0' as u32)) as usize;
        }
        all_digits = all_digits && is_digit_exec(c);
        ident = ident && is_ident_char_exec(c);
        k += 1;
    }
    let spec_str = if colon < b {
        sub_string(s, colon + 1, b)
    } else {
        String::new()
    };
    proof {
        assert forall|m: int| 0 <= m < argv.len() implies (is_digit(#[trigger] argv[m]) <==> is_digit(s@[a + m])) && (is_ident_char(argv[m]) <==> is_ident_char(s@[a + m])) by {
            assert(argv[m] == s@[a + m]);
        }
        if all_digits {
            assert(forall|m: int| 0 <= m < argv.len() ==> is_digit(#[trigger] argv[m]));
        } else {
            let m = choose|m: int| a <= m < colon && !is_digit(#[trigger] s@[m]);
            assert(!is_digit(argv[m - a]));
        }
        if ident {
            assert(forall|m: int| 0 <= m < argv.len() ==> is_ident_char(#[trigger] argv[m]));
        } else {
            let m = choose|m: int| a <= m < colon && !is_ident_char(#[trigger] s@[m]);
            assert(!is_ident_char(argv[m - a]));
        }
        if colon < b {
            assert(inner.subrange(colon - a + 1, inner.len() as int) =~= s@.subrange(colon + 1, b as int));
        }
    }
    if all_digits {
        if colon - a <= 9 {
            Some(Piece::Arg { arg: ArgRef::Index { index: value }, spec: spec_str })
        } else {
            None
        }
    } else if ident && !is_digit_exec(s[a]) {
        assert(argv[0] == s@[a as int]);
        Some(Piece::Arg { arg: ArgRef::Name { name: sub_string(s, a, colon) }, spec: spec_str })
    } else {
        proof {
            if ident {
                assert(argv[0] == s@[a as int]);
            }
        }
        None
    }
}

proof fn lemma_join_push(acc: Seq<PieceV>, p: PieceV, rest: Option<Seq<PieceV>>)
    ensures
        join(acc, prepend(p, rest)) == join(acc.push(p), rest),
{
    if let Some(r) = rest {
        assert(acc + (seq![p] + r) =~= acc.push(p) + r);
    }
}

/// Parses a display template into its pieces; `None` when it is malformed.
pub fn parse_template_text(text: &str) -> (r: Option<Vec<Piece>>)
    ensures
        match r {
            Some(v) => parse_template(text@) == Some(pieces_view(v@)),
            None => parse_template(text@) is None,
        },
{
    let s = chars_of(text);
    let n = s.len();
    let mut out: Vec<Piece> = Vec::new();
    let mut i: usize = 0;
    while i < n
        invariant
            n == s@.len(),
            s@ == text@,
            i <= n,
            parse_from(s@, 0) == join(pieces_view(out@), parse_from(s@, i as int)),
        decreases n - i,
    {
        let ghost acc = pieces_view(out@);
        let c = s[i];
        if c == '{' && i + 1 < n && s[i + 1] == '{' {
            out.push(Piece::Lit { c: '{' });
            proof {
                lemma_join_push(acc, PieceV::Lit('{'), parse_from(s@, i + 2));
                assert(pieces_view(out@) =~= acc.push(PieceV::Lit('{')));
            }
            i += 2;
        } else if c == '}' {
            if i + 1 < n && s[i + 1] == '}' {
                out.push(Piece::Lit { c: '}' });
                proof {
                    lemma_join_push(acc, PieceV::Lit('}'), parse_from(s@, i + 2));
                    assert(pieces_view(out@) =~= acc.push(PieceV::Lit('}')));
                }
                i += 2;
            } else {
                return None;
            }
        } else if c == '{' {
            let k = find_char_exec(&s, i + 1, '}');
            proof {
                lemma_find_char_bounds(s@, i + 1, '}');
            }
            if k >= n {
                return None;
            }
            match parse_interp_exec(&s, i + 1, k) {
                Some(p) => {
                    let ghost pv = p@;
                    out.push(p);
                    proof {
                        lemma_join_push(acc, pv, parse_from(s@, k + 1));
                        assert(pieces_view(out@) =~= acc.push(pv));
                    }
                    i = k + 1;
                },
                None => {
                    return None;
                },
            }
        } else {
            push_lit(&mut out, c);
            proof {
                lemma_step_lit(s@, i as int, acc, pieces_view(out@), c);
            }
            i += 1;
        }
    }
    assert(pieces_view(out@) + seq![] =~= pieces_view(out@));
    Some(out)
}

proof fn lemma_step_lit(s: Seq<char>, i: int, acc: Seq<PieceV>, got: Seq<PieceV>, c: char)
    requires
        0 <= i < s.len(),
        s[i] == c,
        c != '{',
        c != '}',
        parse_from(s, 0) == join(acc, parse_from(s, i)),
        got == acc.push(PieceV::Lit(c)),
    ensures
        parse_from(s, 0) == join(got, parse_from(s, i + 1)),
{
    lemma_join_push(acc, PieceV::Lit(c), parse_from(s, i + 1));
}

fn push_lit(out: &mut Vec<Piece>, c: char)
    ensures
        final(out)@.len() == old(out)@.len() + 1,
        pieces_view(final(out)@) == pieces_view(old(out)@).push(PieceV::Lit(c)),
{
    out.push(Piece::Lit { c: c });
    assert(pieces_view(out@) =~= pieces_view(old(out)@).push(PieceV::Lit(c)));
}

proof fn lemma_pow10_mono(a: nat, b: nat)
    requires
        a <= b,
    ensures
        pow10(a) <= pow10(b),
    decreases b,
{
    if a < b {
        lemma_pow10_mono(a, (b - 1) as nat);
    }
}

proof fn lemma_find_char_shift(s: Seq<char>, a: int, b: int, j: int, c: char)
    requires
        0 <= a <= b <= s.len(),
        0 <= j <= b - a,
    ensures
        find_char(s.subrange(a, b), j, c) == if find_char(s, a + j, c) < b {
            find_char(s, a + j, c) - a
        } else {
            b - a
        },
    decreases b - a - j,
{
    lemma_find_char_bounds(s, a + j, c);
    if j < b - a {
        assert(s.subrange(a, b)[j] == s[a + j]);
        if s[a + j] != c {
            lemma_find_char_shift(s, a, b, j + 1, c);
        }
    }
}

} // verus!
