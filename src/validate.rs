//! The structural rules that an annotated definition must meet before any
//! declaration is generated.
use vstd::prelude::*;
use crate::model::{
    Field, Input, Member, Record, Shape, causal_tag, distinct_backtrace_field,
    distinct_backtrace_index, first_index, from_field, from_index, is_backtrace_ty,
    is_backtrace_type, source_field, source_index,
};
use crate::template::{ArgRefV, Piece, PieceV, parse_template, parse_template_text, pieces_view};
use crate::ty::{unoptional, unoptional_type};
use crate::bounds::resolve_field;

verus! {

/// What is wrong with a definition.
#[derive(Clone, Copy, Debug, PartialEq, Eq, Structural)]
pub enum ErrorKind {
    /// Two fields are tagged as the causal error (directly or as conversion source).
    ConflictingSource,
    /// Two fields are tagged as holding a trace.
    ConflictingBacktrace,
    /// Transparent forwarding on a shape without exactly one field.
    TransparentFieldCount,
    /// Transparent forwarding together with a display template.
    TransparentWithDisplay,
    /// A trace tag on a field, other than the causal one, whose type is not
    /// a trace (optionally wrapped in `Option`).
    BacktraceType,
    /// A conversion source beside fields other than the trace.
    FromWithExtraFields,
    /// A display template with an unmatched brace or an unusable interpolation.
    MalformedTemplate,
    /// A display template that interpolates a field that does not exist.
    DanglingReference,
    /// A variant of a displayed union with neither a template nor a sole field.
    MissingDisplay,
}

/// A validation failure and where it stands: the variant, for a union; the
/// offending field (the second of two conflicting tags, the mistyped trace
/// field, the conversion source); the offending piece of the template (a
/// dangling interpolation).
#[derive(Clone, Copy, Debug, PartialEq, Eq, Structural)]
pub struct ValidationError {
    pub kind: ErrorKind,
    pub variant: Option<usize>,
    pub field: Option<usize>,
    pub piece: Option<usize>,
}

pub open spec fn named_pred(n: Seq<char>) -> spec_fn(Field) -> bool {
    |f: Field| f.member is Named && f.member->name@ == n
}

/// The field an interpolation names, if it exists.
pub open spec fn resolve(a: ArgRefV, fs: Seq<Field>) -> Option<int> {
    match a {
        ArgRefV::Name(n) => first_index(fs, named_pred(n)),
        ArgRefV::Index(k) => if k < fs.len() && fs[k as int].member == (Member::Unnamed {
            index: k as usize,
        }) {
            Some(k as int)
        } else {
            None
        },
    }
}

/// The position, from `k` on, of the first interpolation of `ps` that names
/// no field.
pub open spec fn first_dangling(ps: Seq<PieceV>, fs: Seq<Field>, k: int) -> Option<int>
    decreases ps.len() - k,
{
    if k < 0 || k >= ps.len() {
        None
    } else if ps[k] is Arg && resolve(ps[k]->Arg_0, fs) is None {
        Some(k)
    } else {
        first_dangling(ps, fs, k + 1)
    }
}

pub open spec fn two_tagged(fs: Seq<Field>, p: spec_fn(Field) -> bool) -> bool {
    exists|i: int, j: int| 0 <= i < j < fs.len() && p(#[trigger] fs[i]) && p(#[trigger] fs[j])
}

pub open spec fn causal_pred() -> spec_fn(Field) -> bool {
    |f: Field| causal_tag(f)
}

pub open spec fn backtrace_pred() -> spec_fn(Field) -> bool {
    |f: Field| f.backtrace_tag
}

/// The position, from `k` on, of the field satisfying `p` that follows an
/// earlier one (`seen` says whether one came before `k`).
pub open spec fn second_from(fs: Seq<Field>, p: spec_fn(Field) -> bool, k: int, seen: bool) -> Option<int>
    decreases fs.len() - k,
{
    if k < 0 || k >= fs.len() {
        None
    } else if p(fs[k]) {
        if seen {
            Some(k)
        } else {
            second_from(fs, p, k + 1, true)
        }
    } else {
        second_from(fs, p, k + 1, seen)
    }
}

/// The position of the second field satisfying `p`.
pub open spec fn second_index(fs: Seq<Field>, p: spec_fn(Field) -> bool) -> Option<int> {
    second_from(fs, p, 0, false)
}

/// Field `k` is tagged as a trace, is not the causal field, and its type,
/// unwrapped from `Option`, is not `Backtrace`.
pub open spec fn bad_backtrace_at(fs: Seq<Field>, k: int) -> bool {
    fs[k].backtrace_tag && source_index(fs) != Some(k) && !is_backtrace_type(unoptional(fs[k].ty))
}

/// The position, from `k` on, of the first field with a mistyped trace tag.
pub open spec fn first_bad_backtrace(fs: Seq<Field>, k: int) -> Option<int>
    decreases fs.len() - k,
{
    if k < 0 || k >= fs.len() {
        None
    } else if bad_backtrace_at(fs, k) {
        Some(k)
    } else {
        first_bad_backtrace(fs, k + 1)
    }
}

/// Whether a union displays: some variant has a template or forwards, or
/// it has no variant at all.
pub open spec fn enum_has_display(vs: Seq<Record>) -> bool {
    vs.len() == 0 || exists|i: int| 0 <= i < vs.len() && (#[trigger] vs[i].display is Some || vs[i].transparent)
}

/// The first rule that a record breaks, in the order the rules are checked.
/// `needs_display` holds for a variant of a union that displays.
pub open spec fn record_error(r: Record, needs_display: bool) -> Option<ErrorKind> {
    let fs = r.fields@;
    if r.transparent && fs.len() != 1 {
        Some(ErrorKind::TransparentFieldCount)
    } else if r.transparent && r.display is Some {
        Some(ErrorKind::TransparentWithDisplay)
    } else if two_tagged(fs, causal_pred()) {
        Some(ErrorKind::ConflictingSource)
    } else if two_tagged(fs, backtrace_pred()) {
        Some(ErrorKind::ConflictingBacktrace)
    } else if first_bad_backtrace(fs, 0) is Some {
        Some(ErrorKind::BacktraceType)
    } else if from_index(fs) is Some && fs.len() > 1 + (if distinct_backtrace_index(fs) is Some {
        1int
    } else {
        0
    }) {
        Some(ErrorKind::FromWithExtraFields)
    } else if r.display is Some && parse_template(r.display->0@) is None {
        Some(ErrorKind::MalformedTemplate)
    } else if r.display is Some && first_dangling(parse_template(r.display->0@)->0, fs, 0) is Some {
        Some(ErrorKind::DanglingReference)
    } else if needs_display && !r.transparent && r.display is None && fs.len() != 1 {
        Some(ErrorKind::MissingDisplay)
    } else {
        None
    }
}

pub open spec fn as_usize(o: Option<int>) -> Option<usize> {
    match o {
        Some(k) => Some(k as usize),
        None => None,
    }
}

/// The field where the error `k` of record `r` stands, if it has one.
pub open spec fn error_field(r: Record, k: ErrorKind) -> Option<int> {
    let fs = r.fields@;
    match k {
        ErrorKind::ConflictingSource => second_index(fs, causal_pred()),
        ErrorKind::ConflictingBacktrace => second_index(fs, backtrace_pred()),
        ErrorKind::BacktraceType => first_bad_backtrace(fs, 0),
        ErrorKind::FromWithExtraFields => from_index(fs),
        _ => None,
    }
}

/// The template piece where the error `k` of record `r` stands, if any.
pub open spec fn error_piece(r: Record, k: ErrorKind) -> Option<int> {
    if k == ErrorKind::DanglingReference {
        first_dangling(parse_template(r.display->0@)->0, r.fields@, 0)
    } else {
        None
    }
}

/// The error that validation reports for one record, located within it.
pub open spec fn record_fault(r: Record, needs_display: bool) -> Option<ValidationError> {
    match record_error(r, needs_display) {
        Some(k) => Some(
            ValidationError {
                kind: k,
                variant: None,
                field: as_usize(error_field(r, k)),
                piece: as_usize(error_piece(r, k)),
            },
        ),
        None => None,
    }
}

/// The first error of a union's variants, from variant `i` on.
pub open spec fn variants_error(vs: Seq<Record>, needs: bool, i: int) -> Option<ValidationError>
    decreases vs.len() - i,
{
    if i < 0 || i >= vs.len() {
        None
    } else {
        match record_fault(vs[i], needs) {
            Some(e) => Some(
                ValidationError { kind: e.kind, variant: Some(i as usize), field: e.field, piece: e.piece },
            ),
            None => variants_error(vs, needs, i + 1),
        }
    }
}

/// The error that validation reports for `input`, if any.
pub open spec fn input_error(input: Input) -> Option<ValidationError> {
    match input.shape {
        Shape::Struct { body } => record_fault(body, false),
        Shape::Enum { variants } => variants_error(variants@, enum_has_display(variants@), 0),
    }
}

pub open spec fn valid_input(input: Input) -> bool {
    input_error(input) is None
}

/// The position of the first interpolation of `ps` that names no field.
fn find_dangling(ps: &Vec<Piece>, fs: &Vec<Field>) -> (r: Option<usize>)
    ensures
        r matches Some(k) ==> first_dangling(pieces_view(ps@), fs@, 0) == Some(k as int),
        r is None ==> first_dangling(pieces_view(ps@), fs@, 0) is None,
{
    let ghost pv = pieces_view(ps@);
    let mut i: usize = 0;
    while i < ps.len()
        invariant
            i <= ps.len(),
            pv == pieces_view(ps@),
            first_dangling(pv, fs@, 0) == first_dangling(pv, fs@, i as int),
        decreases ps.len() - i,
    {
        assert(pv[i as int] == ps@[i as int]@);
        let dangling = match &ps[i] {
            Piece::Arg { arg, .. } => resolve_field(arg, fs).is_none(),
            Piece::Lit { .. } => false,
        };
        if dangling {
            return Some(i);
        }
        i += 1;
    }
    None
}

/// The position of the second field with a causal tag (or, with
/// `backtrace`, with a trace tag), when there is one.
fn second_tagged(fs: &Vec<Field>, backtrace: bool) -> (r: Option<usize>)
    ensures
        !backtrace ==> (r is Some <==> two_tagged(fs@, causal_pred())),
        backtrace ==> (r is Some <==> two_tagged(fs@, backtrace_pred())),
        !backtrace ==> (r matches Some(k) ==> second_index(fs@, causal_pred()) == Some(k as int)),
        backtrace ==> (r matches Some(k) ==> second_index(fs@, backtrace_pred()) == Some(k as int)),
{
    let ghost p = if backtrace {
        backtrace_pred()
    } else {
        causal_pred()
    };
    let mut seen: Option<usize> = None;
    let mut i: usize = 0;
    while i < fs.len()
        invariant
            i <= fs.len(),
            p == (if backtrace { backtrace_pred() } else { causal_pred() }),
            second_from(fs@, p, 0, false) == second_from(fs@, p, i as int, seen is Some),
            !exists|a: int, b: int| 0 <= a < b < i && p(#[trigger] fs@[a]) && p(#[trigger] fs@[b]),
            seen matches Some(s) ==> s < i && p(fs@[s as int]),
            seen is None ==> forall|a: int| 0 <= a < i ==> !p(#[trigger] fs@[a]),
        decreases fs.len() - i,
    {
        let tagged = if backtrace {
            fs[i].backtrace_tag
        } else {
            fs[i].source_tag || fs[i].from_tag
        };
        assert(p(fs@[i as int]) == tagged);
        if tagged {
            if let Some(s) = seen {
                assert(p(fs@[s as int]) && p(fs@[i as int]));
                return Some(i);
            }
            seen = Some(i);
        }
        i += 1;
    }
    None
}

/// The position of the first field with a mistyped trace tag.
fn find_bad_backtrace(fs: &Vec<Field>) -> (r: Option<usize>)
    ensures
        r matches Some(k) ==> first_bad_backtrace(fs@, 0) == Some(k as int),
        r is None ==> first_bad_backtrace(fs@, 0) is None,
{
    let s = source_field(fs);
    let mut k: usize = 0;
    while k < fs.len()
        invariant
            k <= fs.len(),
            s matches Some(i) ==> source_index(fs@) == Some(i as int),
            s is None ==> source_index(fs@) is None,
            first_bad_backtrace(fs@, 0) == first_bad_backtrace(fs@, k as int),
        decreases fs.len() - k,
    {
        let is_source = match s {
            Some(i) => i == k,
            None => false,
        };
        if fs[k].backtrace_tag && !is_source && !is_backtrace_ty(unoptional_type(&fs[k].ty)) {
            return Some(k);
        }
        k += 1;
    }
    None
}

fn located(kind: ErrorKind, field: Option<usize>, piece: Option<usize>) -> (e: ValidationError)
    ensures
        e == (ValidationError { kind, variant: None, field, piece }),
{
    ValidationError { kind, variant: None, field, piece }
}

/// The first rule that the record breaks, with where it stands.
pub fn validate_record(r: &Record, needs_display: bool) -> (e: Option<ValidationError>)
    ensures
        e == record_fault(*r, needs_display),
{
    let n = r.fields.len();
    if r.transparent && n != 1 {
        return Some(located(ErrorKind::TransparentFieldCount, None, None));
    }
    if r.transparent && r.display.is_some() {
        return Some(located(ErrorKind::TransparentWithDisplay, None, None));
    }
    if let Some(k) = second_tagged(&r.fields, false) {
        return Some(located(ErrorKind::ConflictingSource, Some(k), None));
    }
    if let Some(k) = second_tagged(&r.fields, true) {
        return Some(located(ErrorKind::ConflictingBacktrace, Some(k), None));
    }
    if let Some(k) = find_bad_backtrace(&r.fields) {
        return Some(located(ErrorKind::BacktraceType, Some(k), None));
    }
    if let Some(f) = from_field(&r.fields) {
        let extra: usize = if distinct_backtrace_field(&r.fields).is_some() {
            1
        } else {
            0
        };
        if n > 1 + extra {
            return Some(located(ErrorKind::FromWithExtraFields, Some(f), None));
        }
    }
    match &r.display {
        Some(t) => match parse_template_text(t.as_str()) {
            None => {
                return Some(located(ErrorKind::MalformedTemplate, None, None));
            },
            Some(ps) => {
                if let Some(k) = find_dangling(&ps, &r.fields) {
                    return Some(located(ErrorKind::DanglingReference, None, Some(k)));
                }
            },
        },
        None => {},
    }
    if needs_display && !r.transparent && r.display.is_none() && n != 1 {
        return Some(located(ErrorKind::MissingDisplay, None, None));
    }
    None
}

/// Whether a union displays: some variant has a template or forwards, or
/// it has no variant at all.
pub fn has_display(vs: &Vec<Record>) -> (r: bool)
    ensures
        r == enum_has_display(vs@),
{
    if vs.len() == 0 {
        return true;
    }
    let mut i: usize = 0;
    while i < vs.len()
        invariant
            i <= vs.len(),
            forall|k: int| 0 <= k < i ==> !(#[trigger] vs@[k].display is Some || vs@[k].transparent),
        decreases vs.len() - i,
    {
        if vs[i].display.is_some() || vs[i].transparent {
            return true;
        }
        i += 1;
    }
    false
}

/// Checks every structural rule; reports the first that is broken.
pub fn validate(input: &Input) -> (r: Result<(), ValidationError>)
    ensures
        r is Ok <==> valid_input(*input),
        r matches Err(e) ==> input_error(*input) == Some(e),
{
    match &input.shape {
        Shape::Struct { body } => match validate_record(body, false) {
            Some(e) => Err(e),
            None => Ok(()),
        },
        Shape::Enum { variants } => {
            let needs = has_display(variants);
            let mut i: usize = 0;
            while i < variants.len()
                invariant
                    i <= variants.len(),
                    input.shape == (Shape::Enum { variants: *variants }),
                    needs == enum_has_display(variants@),
                    variants_error(variants@, needs, 0) == variants_error(variants@, needs, i as int),
                decreases variants.len() - i,
            {
                match validate_record(&variants[i], needs) {
                    Some(e) => {
                        return Err(ValidationError { kind: e.kind, variant: Some(i), field: e.field, piece: e.piece });
                    },
                    None => {},
                }
                i += 1;
            }
            Ok(())
        },
    }
}

} // verus!
