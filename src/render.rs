//! What a generated display writes: a template rendered with the display
//! output of each field.
use vstd::prelude::*;
use crate::bounds::resolve_field;
use crate::model::Field;
use crate::template::{Piece, PieceV, parse_template, parse_template_text, pieces_view};
use crate::text::push_char;
use crate::ty::names_view;
use crate::validate::resolve;
use vstd::string::StringExecFns;

verus! {

/// The text of pieces `ps`, where `vals[k]` is the text that field `k` is
/// formatted to.
pub open spec fn rendered(ps: Seq<PieceV>, fs: Seq<Field>, vals: Seq<Seq<char>>) -> Seq<char>
    decreases ps.len(),
{
    if ps.len() == 0 {
        seq![]
    } else {
        rendered(ps.drop_last(), fs, vals) + match ps.last() {
            PieceV::Lit(c) => seq![c],
            PieceV::Arg(a, _) => match resolve(a, fs) {
                Some(k) => if k < vals.len() {
                    vals[k]
                } else {
                    seq![]
                },
                None => seq![],
            },
        }
    }
}

/// Renders a display template, given in `values[k]` the text that field `k`
/// is formatted to; `None` when the template is malformed.
pub fn render_template(template: &str, fs: &Vec<Field>, values: &Vec<String>) -> (r: Option<String>)
    ensures
        match parse_template(template@) {
            Some(ps) => r matches Some(s) && s@ == rendered(ps, fs@, names_view(values@)),
            None => r is None,
        },
{
    let pieces = match parse_template_text(template) {
        Some(p) => p,
        None => {
            return None;
        },
    };
    let ghost ps = pieces_view(pieces@);
    let mut out = String::new();
    let mut i: usize = 0;
    while i < pieces.len()
        invariant
            i <= pieces.len(),
            ps == pieces_view(pieces@),
            out@ == rendered(ps.subrange(0, i as int), fs@, names_view(values@)),
        decreases pieces.len() - i,
    {
        let ghost sub = ps.subrange(0, i + 1);
        assert(sub.drop_last() =~= ps.subrange(0, i as int));
        assert(sub.last() == pieces@[i as int]@);
        match &pieces[i] {
            Piece::Lit { c } => {
                push_char(&mut out, *c);
            },
            Piece::Arg { arg, .. } => {
                match resolve_field(arg, fs) {
                    Some(k) => {
                        if k < values.len() {
                            out.append(values[k].as_str());
                            assert(names_view(values@)[k as int] == values@[k as int]@);
                        }
                    },
                    None => {},
                }
            },
        }
        i += 1;
    }
    assert(ps.subrange(0, pieces.len() as int) =~= ps);
    Some(out)
}

/// Interpolating a field, whether by name or by position, renders exactly
/// what that field displays.
pub proof fn lemma_interpolation_renders_field(
    a: crate::template::ArgRefV,
    spec: Seq<char>,
    fs: Seq<Field>,
    vals: Seq<Seq<char>>,
    k: int,
)
    requires
        resolve(a, fs) == Some(k),
        0 <= k < vals.len(),
    ensures
        rendered(seq![PieceV::Arg(a, spec)], fs, vals) == vals[k],
{
    let ps = seq![PieceV::Arg(a, spec)];
    assert(ps.drop_last() =~= Seq::<PieceV>::empty());
    assert(rendered(ps.drop_last(), fs, vals) =~= Seq::<char>::empty());
    assert(Seq::<char>::empty() + vals[k] =~= vals[k]);
}

} // verus!
