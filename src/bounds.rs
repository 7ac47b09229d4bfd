//! Inference of the bounds that generated code needs on generic types.
use vstd::prelude::*;
use crate::model::{Field, GenericParam, Record, source_field, source_index};
use crate::plan::{DisplayPlan, DisplayPlanV, display_plan, display_plan_of};
use crate::template::{ArgRef, Piece, PieceV, pieces_view};
use crate::ty::{contains_generic, mentions, names_view, unoptional, unoptional_type};
use crate::validate::resolve;

verus! {

/// A capability that generated code requires of a type.
#[derive(Clone, Copy, Debug, PartialEq, Eq, Structural)]
pub enum Capability {
    Debug,
    Display,
    /// The error interface.
    Error,
    /// The error interface, for a value that lives for the whole program.
    ErrorStatic,
    /// Lower-case hexadecimal formatting (`x`).
    LowerHex,
    /// Upper-case hexadecimal formatting (`X`).
    UpperHex,
    /// Octal formatting (`o`).
    Octal,
    /// Binary formatting (`b`).
    Binary,
    /// Lower-case exponent formatting (`e`).
    LowerExp,
    /// Upper-case exponent formatting (`E`).
    UpperExp,
}

/// One obligation: the type text (or `Self`) and what it must provide.
pub struct Bound {
    pub subject: String,
    pub cap: Capability,
}

impl View for Bound {
    type V = (Seq<char>, Capability);

    open spec fn view(&self) -> (Seq<char>, Capability) {
        (self.subject@, self.cap)
    }
}

pub open spec fn bounds_view(v: Seq<Bound>) -> Seq<(Seq<char>, Capability)> {
    v.map_values(|b: Bound| b@)
}

/// The names of the type parameters.
pub open spec fn type_param_names(ps: Seq<GenericParam>) -> Seq<Seq<char>>
    decreases ps.len(),
{
    if ps.len() == 0 {
        seq![]
    } else if ps.last().is_type {
        type_param_names(ps.drop_last()).push(ps.last().name@)
    } else {
        type_param_names(ps.drop_last())
    }
}

/// The type parameter names of a parameter list.
pub fn type_params(ps: &Vec<GenericParam>) -> (r: Vec<String>)
    ensures
        names_view(r@) == type_param_names(ps@),
{
    let mut r: Vec<String> = Vec::new();
    let mut i: usize = 0;
    while i < ps.len()
        invariant
            i <= ps.len(),
            names_view(r@) == type_param_names(ps@.subrange(0, i as int)),
        decreases ps.len() - i,
    {
        if ps[i].is_type {
            r.push(ps[i].name.clone());
        }
        proof {
            let t = ps@.subrange(0, i + 1);
            assert(t.drop_last() =~= ps@.subrange(0, i as int));
            assert(names_view(r@) =~= type_param_names(t));
        }
        i += 1;
    }
    assert(ps@.subrange(0, ps.len() as int) =~= ps@);
    r
}

/// The obligation that the cause lookup of a record puts on a field type
/// that mentions a type parameter.
pub open spec fn error_obligation(r: Record, names: Seq<Seq<char>>) -> Seq<(Seq<char>, Capability)> {
    let fs = r.fields@;
    if r.transparent {
        if fs.len() > 0 && mentions(fs[0].ty, names) {
            seq![(fs[0].ty.text@, Capability::Error)]
        } else {
            seq![]
        }
    } else {
        match source_index(fs) {
            Some(s) => if mentions(fs[s].ty, names) {
                seq![(unoptional(fs[s].ty).text@, Capability::ErrorStatic)]
            } else {
                seq![]
            },
            None => seq![],
        }
    }
}

/// The obligations of the cause lookup of one record.
pub fn error_bounds_of(r: &Record, names: &Vec<String>) -> (b: Vec<Bound>)
    ensures
        bounds_view(b@) == error_obligation(*r, names_view(names@)),
{
    let mut b: Vec<Bound> = Vec::new();
    if r.transparent {
        if r.fields.len() > 0 && contains_generic(&r.fields[0].ty, names) {
            b.push(Bound { subject: r.fields[0].ty.text.clone(), cap: Capability::Error });
        }
    } else {
        match source_field(&r.fields) {
            Some(s) => {
                if contains_generic(&r.fields[s].ty, names) {
                    let t = unoptional_type(&r.fields[s].ty);
                    b.push(Bound { subject: t.text.clone(), cap: Capability::ErrorStatic });
                }
            },
            None => {},
        }
    }
    assert(bounds_view(b@) =~= error_obligation(*r, names_view(names@)));
    b
}

/// The capability that a format specification asks of a value: `Debug` for
/// one ending in `?`, the numeric formatting traits for `x`, `X`, `o`, `b`,
/// `e` and `E`, none for `p` (every reference is a pointer), and `Display`
/// for one without a type letter.
pub open spec fn spec_capability(spec: Seq<char>) -> Option<Capability> {
    if spec.len() == 0 {
        Some(Capability::Display)
    } else {
        let c = spec.last();
        if c == '?' {
            Some(Capability::Debug)
        } else if c == 'x' {
            Some(Capability::LowerHex)
        } else if c == 'X' {
            Some(Capability::UpperHex)
        } else if c == 'o' {
            Some(Capability::Octal)
        } else if c == 'b' {
            Some(Capability::Binary)
        } else if c == 'e' {
            Some(Capability::LowerExp)
        } else if c == 'E' {
            Some(Capability::UpperExp)
        } else if c == 'p' {
            None
        } else {
            Some(Capability::Display)
        }
    }
}

pub fn capability_of(spec: &String) -> (r: Option<Capability>)
    ensures
        r == spec_capability(spec@),
{
    let n = spec.as_str().unicode_len();
    if n == 0 {
        return Some(Capability::Display);
    }
    let c = spec.as_str().get_char(n - 1);
    if c == '?' {
        Some(Capability::Debug)
    } else if c == 'x' {
        Some(Capability::LowerHex)
    } else if c == 'X' {
        Some(Capability::UpperHex)
    } else if c == 'o' {
        Some(Capability::Octal)
    } else if c == 'b' {
        Some(Capability::Binary)
    } else if c == 'e' {
        Some(Capability::LowerExp)
    } else if c == 'E' {
        Some(Capability::UpperExp)
    } else if c == 'p' {
        None
    } else {
        Some(Capability::Display)
    }
}

/// The obligations of the interpolations `ps[..n]` on the fields they name.
pub open spec fn template_obligations(
    ps: Seq<PieceV>,
    fs: Seq<Field>,
    names: Seq<Seq<char>>,
    n: int,
) -> Seq<(Seq<char>, Capability)>
    decreases n,
{
    if n <= 0 {
        seq![]
    } else {
        let pre = template_obligations(ps, fs, names, n - 1);
        match ps[n - 1] {
            PieceV::Arg(a, spec) => match (resolve(a, fs), spec_capability(spec)) {
                (Some(k), Some(c)) => if mentions(fs[k].ty, names) {
                    pre.push((fs[k].ty.text@, c))
                } else {
                    pre
                },
                _ => pre,
            },
            PieceV::Lit(_) => pre,
        }
    }
}

/// The obligations that the display of a record puts on field types that
/// mention a type parameter.
pub open spec fn display_obligation(r: Record, fallback: bool, names: Seq<Seq<char>>) -> Seq<
    (Seq<char>, Capability),
> {
    let fs = r.fields@;
    match display_plan_of(r, fallback) {
        DisplayPlanV::Forward => if fs.len() > 0 && mentions(fs[0].ty, names) {
            seq![(fs[0].ty.text@, Capability::Display)]
        } else {
            seq![]
        },
        DisplayPlanV::Template(ps) => template_obligations(ps, fs, names, ps.len() as int),
        DisplayPlanV::Nothing => seq![],
    }
}

/// The position of the field that interpolation `a` names.
pub fn resolve_field(a: &ArgRef, fs: &Vec<Field>) -> (r: Option<usize>)
    ensures
        r matches Some(k) ==> resolve(a@, fs@) == Some(k as int) && k < fs@.len(),
        r is None ==> resolve(a@, fs@) is None,
{
    match a {
        ArgRef::Name { name } => {
            assert(a@ == crate::template::ArgRefV::Name(name@));
            let mut i: usize = 0;
            while i < fs.len()
                invariant
                    i <= fs.len(),
                    a@ == crate::template::ArgRefV::Name(name@),
                    forall|k: int| 0 <= k < i ==> !crate::validate::named_pred(name@)(#[trigger] fs@[k]),
                decreases fs.len() - i,
            {
                let hit = match &fs[i].member {
                    crate::model::Member::Named { name: m } => crate::ty::str_eq(m.as_str(), name.as_str()),
                    crate::model::Member::Unnamed { .. } => false,
                };
                assert(crate::validate::named_pred(name@)(fs@[i as int]) == hit);
                if hit {
                    proof {
                        crate::model::lemma_first_index(fs@, crate::validate::named_pred(name@), i as int);
                    }
                    return Some(i);
                }
                i += 1;
            }
            proof {
                crate::model::lemma_first_index(fs@, crate::validate::named_pred(name@), i as int);
            }
            None
        },
        ArgRef::Index { index } => {
            if *index < fs.len() {
                match &fs[*index].member {
                    crate::model::Member::Unnamed { index: j } => if *j == *index {
                        Some(*index)
                    } else {
                        None
                    },
                    crate::model::Member::Named { .. } => None,
                }
            } else {
                None
            }
        },
    }
}

/// The obligations of the display of one record.
pub fn display_bounds_of(r: &Record, fallback: bool, names: &Vec<String>) -> (b: Vec<Bound>)
    ensures
        bounds_view(b@) == display_obligation(*r, fallback, names_view(names@)),
{
    let mut b: Vec<Bound> = Vec::new();
    let plan = display_plan(r, fallback);
    match &plan {
        DisplayPlan::Forward => {
            if r.fields.len() > 0 && contains_generic(&r.fields[0].ty, names) {
                b.push(Bound { subject: r.fields[0].ty.text.clone(), cap: Capability::Display });
            }
            assert(bounds_view(b@) =~= display_obligation(*r, fallback, names_view(names@)));
        },
        DisplayPlan::Template { pieces } => {
            let ghost ps = pieces_view(pieces@);
            let fs = &r.fields;
            let mut i: usize = 0;
            while i < pieces.len()
                invariant
                    i <= pieces.len(),
                    ps == pieces_view(pieces@),
                    bounds_view(b@) == template_obligations(ps, fs@, names_view(names@), i as int),
                decreases pieces.len() - i,
            {
                let ghost before = b@;
                assert(ps[i as int] == pieces@[i as int]@);
                match &pieces[i] {
                    Piece::Arg { arg, spec } => {
                        match (resolve_field(arg, fs), capability_of(spec)) {
                            (Some(k), Some(c)) => {
                                if contains_generic(&fs[k].ty, names) {
                                    b.push(Bound { subject: fs[k].ty.text.clone(), cap: c });
                                    assert(bounds_view(b@) =~= bounds_view(before).push((fs@[k as int].ty.text@, c)));
                                }
                            },
                            _ => {},
                        }
                    },
                    Piece::Lit { .. } => {},
                }
                i += 1;
            }
        },
        DisplayPlan::Nothing => {
            assert(bounds_view(b@) =~= display_obligation(*r, fallback, names_view(names@)));
        },
    }
    b
}

} // verus!
