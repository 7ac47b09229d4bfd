//! What each emitter generates for one record, decided from the validated
//! model before any text is written.
use vstd::prelude::*;
use crate::model::{
    Field, Record, backtrace_field, backtrace_index, distinct_backtrace_field,
    distinct_backtrace_index, from_field, from_index, member_eq, same_member, source_field,
    source_index,
};
use crate::template::{Piece, PieceV, parse_template, parse_template_text, pieces_view};
use crate::ty::{option_arg, type_is_option};
use crate::naming::{method_base_name, throw_name, throw_with_name};
use crate::model::{causal_tag, is_named_source, named_source};
use vstd::string::StringExecFns;

verus! {

/// How the cause lookup of a record answers.
#[derive(Clone, Copy, Debug, PartialEq, Eq, Structural)]
pub enum SourcePlan {
    /// No cause.
    Nothing,
    /// The cause lookup of the sole field itself.
    Transparent,
    /// The field at `index`, unwrapped first when `optional`.
    Field { index: usize, optional: bool },
}

pub open spec fn is_optional(f: Field) -> bool {
    option_arg(f.ty) is Some
}

pub open spec fn source_plan_of(r: Record) -> SourcePlan {
    if r.transparent {
        SourcePlan::Transparent
    } else {
        match source_index(r.fields@) {
            Some(i) => SourcePlan::Field { index: i as usize, optional: is_optional(r.fields@[i]) },
            None => SourcePlan::Nothing,
        }
    }
}

/// The cause lookup of a record.
pub fn source_plan(r: &Record) -> (p: SourcePlan)
    ensures
        p == source_plan_of(*r),
{
    if r.transparent {
        return SourcePlan::Transparent;
    }
    match source_field(&r.fields) {
        Some(i) => SourcePlan::Field { index: i, optional: type_is_option(&r.fields[i].ty) },
        None => SourcePlan::Nothing,
    }
}

/// How the trace provision of a record answers: first forward the request to
/// the causal field (`forward`), then offer the stored trace (`offer`); each
/// with its optionality.
#[derive(Clone, Copy, Debug, PartialEq, Eq)]
pub struct ProvidePlan {
    pub forward: Option<(usize, bool)>,
    pub offer: Option<(usize, bool)>,
}

pub open spec fn provide_plan_of(r: Record) -> Option<ProvidePlan> {
    let fs = r.fields@;
    match backtrace_index(fs) {
        None => None,
        Some(b) => Some(
            match source_index(fs) {
                Some(s) => ProvidePlan {
                    forward: Some((s as usize, is_optional(fs[s]))),
                    offer: if same_member(fs[s].member, fs[b].member) {
                        None
                    } else {
                        Some((b as usize, is_optional(fs[b])))
                    },
                },
                None => ProvidePlan { forward: None, offer: Some((b as usize, is_optional(fs[b]))) },
            },
        ),
    }
}

/// The trace provision of a record; `None` when it has no trace field.
pub fn provide_plan(r: &Record) -> (p: Option<ProvidePlan>)
    ensures
        p == provide_plan_of(*r),
{
    let fs = &r.fields;
    match backtrace_field(fs) {
        None => None,
        Some(b) => {
            let b_opt = type_is_option(&fs[b].ty);
            match source_field(fs) {
                Some(s) => {
                    let offer = if member_eq(&fs[s].member, &fs[b].member) {
                        None
                    } else {
                        Some((b, b_opt))
                    };
                    Some(ProvidePlan { forward: Some((s, type_is_option(&fs[s].ty))), offer })
                },
                None => Some(ProvidePlan { forward: None, offer: Some((b, b_opt)) }),
            }
        },
    }
}

/// The conversion constructor of a record: the field set to the argument,
/// whether the argument is wrapped in `Some`, and the trace field filled with
/// a fresh capture (with its own wrapping).
#[derive(Clone, Copy, Debug, PartialEq, Eq)]
pub struct FromPlan {
    pub from: usize,
    pub wrap_some: bool,
    pub backtrace: Option<(usize, bool)>,
}

pub open spec fn from_plan_of(r: Record) -> Option<FromPlan> {
    let fs = r.fields@;
    match from_index(fs) {
        None => None,
        Some(f) => Some(
            FromPlan {
                from: f as usize,
                wrap_some: is_optional(fs[f]),
                backtrace: match distinct_backtrace_index(fs) {
                    Some(b) => Some((b as usize, is_optional(fs[b]))),
                    None => None,
                },
            },
        ),
    }
}

/// The conversion constructor of a record; `None` without a conversion source.
pub fn from_plan(r: &Record) -> (p: Option<FromPlan>)
    ensures
        p == from_plan_of(*r),
{
    let fs = &r.fields;
    match from_field(fs) {
        None => None,
        Some(f) => {
            let backtrace = match distinct_backtrace_field(fs) {
                Some(b) => Some((b, type_is_option(&fs[b].ty))),
                None => None,
            };
            Some(FromPlan { from: f, wrap_some: type_is_option(&fs[f].ty), backtrace })
        },
    }
}

/// How a record displays.
pub enum DisplayPlan {
    /// No display.
    Nothing,
    /// The display of the sole field, verbatim.
    Forward,
    /// The template, rendered with the fields in scope.
    Template { pieces: Vec<Piece> },
}

pub enum DisplayPlanV {
    Nothing,
    Forward,
    Template(Seq<PieceV>),
}

impl View for DisplayPlan {
    type V = DisplayPlanV;

    open spec fn view(&self) -> DisplayPlanV {
        match self {
            DisplayPlan::Nothing => DisplayPlanV::Nothing,
            DisplayPlan::Forward => DisplayPlanV::Forward,
            DisplayPlan::Template { pieces } => DisplayPlanV::Template(pieces_view(pieces@)),
        }
    }
}

/// How a valid record displays. `fallback` holds for a variant of a union
/// that displays, where a sole field without a template is forwarded.
pub open spec fn display_plan_of(r: Record, fallback: bool) -> DisplayPlanV {
    if r.transparent {
        DisplayPlanV::Forward
    } else if r.display is Some {
        match parse_template(r.display->0@) {
            Some(ps) => DisplayPlanV::Template(ps),
            None => DisplayPlanV::Nothing,
        }
    } else if fallback && r.fields@.len() == 1 {
        DisplayPlanV::Forward
    } else {
        DisplayPlanV::Nothing
    }
}

/// How a record displays.
pub fn display_plan(r: &Record, fallback: bool) -> (p: DisplayPlan)
    ensures
        p@ == display_plan_of(*r, fallback),
{
    if r.transparent {
        return DisplayPlan::Forward;
    }
    match &r.display {
        Some(t) => match parse_template_text(t.as_str()) {
            Some(pieces) => DisplayPlan::Template { pieces },
            None => DisplayPlan::Nothing,
        },
        None => if fallback && r.fields.len() == 1 {
            DisplayPlan::Forward
        } else {
            DisplayPlan::Nothing
        },
    }
}

/// Whether field `k` is left out of the builder's parameters: it is tagged
/// as causal, or it is the implicit causal field named `source`.
pub open spec fn is_source_field(fs: Seq<Field>, s: int, k: int) -> bool {
    causal_tag(fs[k]) || (named_source(fs[k]) && same_member(fs[s].member, fs[k].member))
}

/// The positions below `n` of the fields that the builder takes as
/// parameters, in declaration order.
pub open spec fn extra_fields(fs: Seq<Field>, s: int, n: int) -> Seq<usize>
    decreases n,
{
    if n <= 0 {
        seq![]
    } else if is_source_field(fs, s, n - 1) {
        extra_fields(fs, s, n - 1)
    } else {
        extra_fields(fs, s, n - 1).push((n - 1) as usize)
    }
}

/// The throw-builder capability of one record with a causal field.
pub struct ThrowsPlan {
    pub trait_name: String,
    pub throw_method: String,
    /// The deferred method, present exactly when there are extra fields.
    pub with_method: Option<String>,
    pub source: usize,
    pub extra: Vec<usize>,
}

/// The view of a builder capability: its names, the causal field, and the
/// extra fields in order.
pub struct BuilderV {
    pub trait_name: Seq<char>,
    pub throw: Seq<char>,
    pub with: Option<Seq<char>>,
    pub source: int,
    pub extra: Seq<usize>,
}

impl View for ThrowsPlan {
    type V = BuilderV;

    open spec fn view(&self) -> BuilderV {
        BuilderV {
            trait_name: self.trait_name@,
            throw: self.throw_method@,
            with: match self.with_method {
                Some(w) => Some(w@),
                None => None,
            },
            source: self.source as int,
            extra: self.extra@,
        }
    }
}

/// The builder capability of a record `r` with causal field `s`, named
/// `ident`, whose capability name starts with `prefix`.
pub open spec fn builder_of(prefix: Seq<char>, ident: Seq<char>, r: Record, s: int) -> BuilderV {
    let extra = extra_fields(r.fields@, s, r.fields@.len() as int);
    BuilderV {
        trait_name: prefix + ident + throws_suffix(),
        throw: throw_name(ident),
        with: if extra.len() > 0 {
            Some(throw_with_name(ident))
        } else {
            None
        },
        source: s,
        extra,
    }
}

pub open spec fn throws_suffix() -> Seq<char> {
    seq!['T', 'h', 'r', 'o', 'w', 's']
}

/// `t` is the throw-builder capability of record `r` named `ident`: the
/// capability is named `prefix` + `ident` + `Throws`, the methods after the
/// identifier, and the parameters are the non-causal fields in order.
pub open spec fn throws_plan_spec(prefix: Seq<char>, ident: Seq<char>, r: Record, t: ThrowsPlan) -> bool {
    &&& t.trait_name@ == prefix + ident + throws_suffix()
    &&& t.throw_method@ == throw_name(ident)
    &&& Some(t.source as int) == source_index(r.fields@)
    &&& t.extra@ == extra_fields(r.fields@, t.source as int, r.fields@.len() as int)
    &&& t.source < r.fields@.len()
    &&& forall|i: int| 0 <= i < t.extra@.len() ==> #[trigger] t.extra@[i] < r.fields@.len()
    &&& (t.with_method is Some <==> t.extra@.len() > 0)
    &&& t.with_method matches Some(w) ==> w@ == throw_with_name(ident)
    &&& t@ == builder_of(prefix, ident, r, t.source as int)
}

/// The throw-builder capability of a record named `ident` (the variant's name
/// for a union), whose capability is named `prefix` + `ident` + `Throws`.
pub fn throws_plan(prefix: &str, ident: &str, r: &Record) -> (p: Option<ThrowsPlan>)
    ensures
        p is Some <==> source_index(r.fields@) is Some,
        p matches Some(t) ==> throws_plan_spec(prefix@, ident@, *r, t),
{
    let s = match source_field(&r.fields) {
        Some(s) => s,
        None => {
            return None;
        },
    };
    let fs = &r.fields;
    let mut extra: Vec<usize> = Vec::new();
    let mut k: usize = 0;
    while k < fs.len()
        invariant
            k <= fs.len(),
            s < fs.len(),
            extra@ == extra_fields(fs@, s as int, k as int),
            forall|i: int| 0 <= i < extra@.len() ==> #[trigger] extra@[i] < k,
        decreases fs.len() - k,
    {
        let f = &fs[k];
        let skip = f.source_tag || f.from_tag || (is_named_source(f) && member_eq(&fs[s].member, &f.member));
        if !skip {
            extra.push(k);
        }
        k += 1;
    }
    let mut trait_name = String::from_str(prefix);
    trait_name.append(ident);
    proof {
        reveal_strlit("Throws");
        reveal_strlit("throw_");
        reveal_strlit("_with");
    }
    trait_name.append("Throws");
    let base = method_base_name(ident);
    let mut throw_method = String::from_str("throw_");
    throw_method.append(base.as_str());
    let with_method = if extra.len() > 0 {
        let mut w = throw_method.clone();
        w.append("_with");
        Some(w)
    } else {
        None
    };
    assert("Throws"@ =~= throws_suffix());
    assert("throw_"@ =~= seq!['t', 'h', 'r', 'o', 'w', '_']);
    assert("_with"@ =~= seq!['_', 'w', 'i', 't', 'h']);
    Some(ThrowsPlan { trait_name, throw_method, with_method, source: s, extra })
}

} // verus!
