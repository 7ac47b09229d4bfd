//! Properties that hold of every definition the engine accepts.
use vstd::prelude::*;
use crate::bounds::{display_obligation, error_obligation, template_obligations, Capability};
use crate::model::{
    Field, Record, causal_tag, distinct_backtrace_index, first_index, from_index,
    lemma_first_index_bounds, source_index,
};
use crate::naming::{base_name, ends_with_error, snake_case, throw_name, throw_with_name};
use crate::plan::{DisplayPlanV, SourcePlan, display_plan_of, from_plan_of, source_plan_of};
use crate::template::PieceV;
use crate::ty::mentions;
use crate::validate::{
    ErrorKind, as_usize, causal_pred, enum_has_display, input_error, record_error, record_fault,
    resolve, second_index, two_tagged, valid_input, variants_error,
};
use crate::bounds::spec_capability;
use crate::model::{Input, Shape};
use crate::template::ArgRefV;
use crate::bounds::type_param_names;
use crate::emit::{
    arg_name, binding_text, escaped_all, piece_fmt, piece_let,
    dedup, insert_all_spec, member_text, self_obligations, struct_display_body, struct_error_bounds,
    struct_source_text,
};
use crate::model::Generics;

verus! {

proof fn lemma_first_index_min(s: Seq<Field>, p: spec_fn(Field) -> bool, k: int)
    requires
        0 <= k < s.len(),
        p(s[k]),
    ensures
        first_index(s, p) is Some,
        first_index(s, p)->0 <= k,
    decreases s.len(),
{
    if k > 0 && !p(s[0]) {
        assert(s.drop_first()[k - 1] == s[k]);
        lemma_first_index_min(s.drop_first(), p, k - 1);
    }
}

/// The conversion constructor of a valid record sets the causal field to its
/// argument, and fills a trace field, when one is distinct from it, with a
/// fresh capture.
pub proof fn lemma_conversion_sets_cause(r: Record, needs_display: bool)
    requires
        record_error(r, needs_display) is None,
        from_index(r.fields@) is Some,
    ensures
        from_plan_of(r) is Some,
        Some(from_plan_of(r)->0.from as int) == source_index(r.fields@),
        from_plan_of(r)->0.backtrace is Some <==> distinct_backtrace_index(r.fields@) is Some,
{
    let fs = r.fields@;
    let f = from_index(fs)->0;
    lemma_first_index_bounds(fs, |x: Field| x.from_tag);
    let pc = |x: Field| causal_tag(x);
    assert(pc(fs[f]));
    lemma_first_index_min(fs, pc, f);
    lemma_first_index_bounds(fs, pc);
    let i = first_index(fs, pc)->0;
    if i != f {
        assert(causal_tag(fs[i]) && causal_tag(fs[f]));
        assert(two_tagged(fs, |x: Field| causal_tag(x)));
    }
}

/// A transparent record displays as its sole field does, and its cause
/// lookup is that field's own, not the field itself: for a struct, the
/// generated formatting calls the field's formatting and the generated cause
/// lookup calls the field's cause lookup.
pub proof fn lemma_transparent_forwards(r: Record, fallback: bool)
    requires
        r.transparent,
    ensures
        display_plan_of(r, fallback) == DisplayPlanV::Forward,
        source_plan_of(r) == SourcePlan::Transparent,
        r.fields@.len() == 1 ==> struct_display_body(r) == "::core::fmt::Display::fmt(&self."@
            + member_text(r.fields@[0].member) + ", __formatter)"@,
        r.fields@.len() == 1 ==> struct_source_text(r.fields@, source_plan_of(r))
            == "std::error::Error::source(self."@ + member_text(r.fields@[0].member)
            + ".as_dyn_error())"@,
{
}

/// Builder names depend on the identifier alone: `throw_` and the lower
/// snake case of the identifier with one trailing `_error` removed (and only
/// one: `IoErrorError` gives `throw_io_error`), and the deferred method is
/// that name with `_with` appended.
pub proof fn lemma_builder_names(ident: Seq<char>)
    ensures
        throw_name(ident) == seq!['t', 'h', 'r', 'o', 'w', '_'] + base_name(ident),
        ends_with_error(snake_case(ident)) ==> base_name(ident) == snake_case(ident).subrange(
            0,
            snake_case(ident).len() - 6,
        ),
        !ends_with_error(snake_case(ident)) ==> base_name(ident) == snake_case(ident),
        throw_with_name(ident) == throw_name(ident) + seq!['_', 'w', 'i', 't', 'h'],
{
}

proof fn lemma_resolve_bounds(a: crate::template::ArgRefV, fs: Seq<Field>)
    ensures
        resolve(a, fs) matches Some(k) ==> 0 <= k < fs.len(),
{
    match a {
        crate::template::ArgRefV::Name(n) => {
            lemma_first_index_bounds(fs, crate::validate::named_pred(n));
        },
        crate::template::ArgRefV::Index(_) => {},
    }
}

proof fn lemma_template_obligations(ps: Seq<PieceV>, fs: Seq<Field>, names: Seq<Seq<char>>, n: int)
    requires
        n <= ps.len(),
    ensures
        forall|j: int|
            0 <= j < template_obligations(ps, fs, names, n).len() ==> exists|k: int|
                0 <= k < fs.len() && mentions(#[trigger] fs[k].ty, names)
                    && #[trigger] template_obligations(ps, fs, names, n)[j].0 == fs[k].ty.text@,
    decreases n,
{
    if n > 0 {
        lemma_template_obligations(ps, fs, names, n - 1);
        if let PieceV::Arg(a, _) = ps[n - 1] {
            lemma_resolve_bounds(a, fs);
        }
        let pre = template_obligations(ps, fs, names, n - 1);
        let cur = template_obligations(ps, fs, names, n);
        assert forall|j: int| 0 <= j < cur.len() implies exists|k: int|
            0 <= k < fs.len() && mentions(#[trigger] fs[k].ty, names) && #[trigger] cur[j].0
                == fs[k].ty.text@ by {
            if j < pre.len() {
                assert(cur[j] == pre[j]);
                assert(pre[j].0 == template_obligations(ps, fs, names, n - 1)[j].0);
            } else {
                if let PieceV::Arg(a, _) = ps[n - 1] {
                    let k = resolve(a, fs)->0;
                    assert(mentions(fs[k].ty, names));
                    assert(cur[j].0 == fs[k].ty.text@);
                }
            }
        }
    }
}

/// Bounds go only to field types that mention a type parameter: every
/// obligation of the cause lookup and of the display names the type of such
/// a field (the unwrapped type, for an optional causal field).
pub proof fn lemma_bounds_only_on_generic_fields(r: Record, fallback: bool, names: Seq<Seq<char>>)
    ensures
        forall|j: int|
            0 <= j < display_obligation(r, fallback, names).len() ==> exists|k: int|
                0 <= k < r.fields@.len() && mentions(#[trigger] r.fields@[k].ty, names)
                    && #[trigger] display_obligation(r, fallback, names)[j].0 == r.fields@[k].ty.text@,
        forall|j: int|
            0 <= j < error_obligation(r, names).len() ==> exists|k: int|
                0 <= k < r.fields@.len() && mentions(#[trigger] r.fields@[k].ty, names) && (
                #[trigger] error_obligation(r, names)[j].0 == r.fields@[k].ty.text@ || error_obligation(
                    r,
                    names,
                )[j].0 == crate::ty::unoptional(r.fields@[k].ty).text@),
{
    let fs = r.fields@;
    lemma_first_index_bounds(fs, |f: Field| causal_tag(f));
    lemma_first_index_bounds(fs, |f: Field| crate::model::named_source(f));
    if let DisplayPlanV::Template(ps) = display_plan_of(r, fallback) {
        lemma_template_obligations(ps, fs, names, ps.len() as int);
    }
    if r.transparent && fs.len() > 0 && mentions(fs[0].ty, names) {
        assert(mentions(r.fields@[0].ty, names));
    }
    if !r.transparent {
        if let Some(s) = source_index(fs) {
            if mentions(fs[s].ty, names) {
                assert(mentions(r.fields@[s].ty, names));
            }
        }
    }
    if display_plan_of(r, fallback) == DisplayPlanV::Forward && fs.len() > 0 && mentions(fs[0].ty, names) {
        assert(mentions(r.fields@[0].ty, names));
    }
}

/// A field that is read by an emitter and whose type mentions a type
/// parameter gives that type a bound: the sole field of a transparent record
/// the error interface, an optional-unwrapped causal field the error interface
/// for the whole program.
pub proof fn lemma_read_generic_fields_get_bounds(r: Record, names: Seq<Seq<char>>)
    ensures
        r.transparent && r.fields@.len() > 0 && mentions(r.fields@[0].ty, names)
            ==> error_obligation(r, names) == seq![(r.fields@[0].ty.text@, Capability::Error)],
        forall|s: int|
            !r.transparent && source_index(r.fields@) == Some(s) && mentions(
                #[trigger] r.fields@[s].ty,
                names,
            ) ==> error_obligation(r, names) == seq![
                (crate::ty::unoptional(r.fields@[s].ty).text@, Capability::ErrorStatic),
            ],
{
}

proof fn lemma_merge_contains(
    acc: Seq<(Seq<char>, Capability)>,
    more: Seq<(Seq<char>, Capability)>,
    n: int,
    x: (Seq<char>, Capability),
)
    requires
        0 <= n <= more.len(),
    ensures
        insert_all_spec(acc, more, n).contains(x) <==> (acc.contains(x) || exists|j: int|
            0 <= j < n && #[trigger] more[j] == x),
    decreases n,
{
    if n > 0 {
        lemma_merge_contains(acc, more, n - 1, x);
        let pre = insert_all_spec(acc, more, n - 1);
        let cur = insert_all_spec(acc, more, n);
        if cur.contains(x) && !pre.contains(x) {
            let i = choose|i: int| 0 <= i < cur.len() && cur[i] == x;
            assert(more[n - 1] == x);
        }
        if more[n - 1] == x {
            if pre.contains(x) {
            } else {
                assert(cur[cur.len() - 1] == x);
            }
        }
        if pre.contains(x) {
            let i = choose|i: int| 0 <= i < pre.len() && pre[i] == x;
            assert(cur[i] == x);
        }
        if exists|j: int| 0 <= j < n - 1 && #[trigger] more[j] == x {
        } else if acc.contains(x) {
        } else if exists|j: int| 0 <= j < n && #[trigger] more[j] == x {
            let j = choose|j: int| 0 <= j < n && #[trigger] more[j] == x;
            assert(j == n - 1);
        }
    }
}

/// On a struct, the error interface's bounds are exactly the supertraits on
/// `Self` (with type parameters) and the obligations of the fields it reads
/// whose types mention a type parameter: no other type gets a bound, and each
/// such field does.
pub proof fn lemma_struct_error_bounds(g: Generics, body: Record, x: (Seq<char>, Capability))
    ensures
        struct_error_bounds(g, body).contains(x) <==> (error_obligation(
            body,
            type_param_names(g.params@),
        ).contains(x) || self_obligations(g).contains(x)),
{
    let ob = error_obligation(body, type_param_names(g.params@));
    let so = self_obligations(g);
    lemma_merge_contains(seq![], ob, ob.len() as int, x);
    lemma_merge_contains(dedup(ob), so, so.len() as int, x);
    if ob.contains(x) {
        let j = choose|j: int| 0 <= j < ob.len() && ob[j] == x;
        assert(ob[j] == x);
    }
    if so.contains(x) {
        let j = choose|j: int| 0 <= j < so.len() && so[j] == x;
        assert(so[j] == x);
    }
}

/// A record with two fields tagged as causal is rejected as a conflicting
/// cause, located at the second of them, unless it is transparent (whose
/// field-count rule is checked first).
pub proof fn lemma_two_causes_rejected(r: Record, needs_display: bool, i: int, j: int)
    requires
        !r.transparent,
        0 <= i < j < r.fields@.len(),
        causal_tag(r.fields@[i]),
        causal_tag(r.fields@[j]),
    ensures
        record_error(r, needs_display) == Some(ErrorKind::ConflictingSource),
        record_fault(r, needs_display) matches Some(e) && e.kind == ErrorKind::ConflictingSource
            && e.field == as_usize(second_index(r.fields@, causal_pred())),
{
    assert(causal_pred()(r.fields@[i]) && causal_pred()(r.fields@[j]));
    assert(two_tagged(r.fields@, causal_pred()));
}

proof fn lemma_variants_error_some(vs: Seq<Record>, needs: bool, i: int, k: int)
    requires
        0 <= i <= k < vs.len(),
        record_error(vs[k], needs) is Some,
    ensures
        variants_error(vs, needs, i) is Some,
    decreases k - i,
{
    if record_error(vs[i], needs) is None {
        lemma_variants_error_some(vs, needs, i + 1, k);
    }
}

/// A definition in which some record (the struct body, or any variant) has
/// two fields tagged as causal, and is not transparent, is rejected: no
/// declaration is generated for it. For a struct the failure is the
/// conflicting cause itself.
pub proof fn lemma_two_causes_invalid(input: Input, k: int, i: int, j: int)
    requires
        match input.shape {
            Shape::Struct { body } => !body.transparent && 0 <= i < j < body.fields@.len()
                && causal_tag(body.fields@[i]) && causal_tag(body.fields@[j]),
            Shape::Enum { variants } => 0 <= k < variants@.len() && !variants@[k].transparent && 0
                <= i < j < variants@[k].fields@.len() && causal_tag(variants@[k].fields@[i])
                && causal_tag(variants@[k].fields@[j]),
        },
    ensures
        !valid_input(input),
        input.shape is Struct ==> input_error(input)->0.kind == ErrorKind::ConflictingSource,
{
    match input.shape {
        Shape::Struct { body } => {
            lemma_two_causes_rejected(body, false, i, j);
        },
        Shape::Enum { variants } => {
            let needs = enum_has_display(variants@);
            lemma_two_causes_rejected(variants@[k], needs, i, j);
            lemma_variants_error_some(variants@, needs, 0, k);
        },
    }
}

/// An interpolation that names field `k`, by name or by position, is written
/// in the generated format string with that field's own binding (through the
/// display adapter bound to it when it asks for `Display`), keeping its
/// format specification; the binding pattern binds every field.
pub proof fn lemma_interpolation_uses_field(a: ArgRefV, spec: Seq<char>, fs: Seq<Field>, k: int)
    requires
        resolve(a, fs) == Some(k),
        0 <= k < fs.len(),
    ensures
        piece_fmt(PieceV::Arg(a, spec), fs) == "{"@ + arg_name(PieceV::Arg(a, spec), fs) + (if spec.len()
            > 0 {
            ":"@ + escaped_all(spec, spec.len() as int)
        } else {
            seq![]
        }) + "}"@,
        spec_capability(spec) == Some(Capability::Display) ==> arg_name(PieceV::Arg(a, spec), fs)
            == "__display_"@ + binding_text(fs[k].member) && piece_let(PieceV::Arg(a, spec), fs)
            == "let "@ + "__display_"@ + binding_text(fs[k].member) + " = "@ + binding_text(
            fs[k].member,
        ) + ".as_display();\n"@,
        spec_capability(spec) != Some(Capability::Display) ==> arg_name(PieceV::Arg(a, spec), fs)
            == binding_text(fs[k].member),
{
}

/// A struct that is not transparent and whose causal field, if any, does not
/// mention a type parameter gets only the supertrait bounds on `Self` (when
/// it has type parameters) on its error interface: a parameter used only by
/// fields that the cause lookup does not read stays unconstrained.
pub proof fn lemma_unread_parameters_unbounded(g: Generics, body: Record)
    requires
        !body.transparent,
        source_index(body.fields@) matches Some(s) ==> !mentions(
            body.fields@[s].ty,
            type_param_names(g.params@),
        ),
    ensures
        struct_error_bounds(g, body) == self_obligations(g),
{
    let ob = error_obligation(body, type_param_names(g.params@));
    assert(ob.len() == 0);
    let so = self_obligations(g);
    let e = Seq::<(Seq<char>, Capability)>::empty();
    assert(dedup(ob) == e);
    if so.len() > 0 {
        let one = insert_all_spec(e, so, 1);
        assert(insert_all_spec(e, so, 0) == e);
        assert(!e.contains(so[0]));
        assert(one == e.push(so[0]));
        if one.contains(so[1]) {
            let i = choose|i: int| 0 <= i < one.len() && one[i] == so[1];
            assert(one[i] == so[0]);
        }
        assert(insert_all_spec(e, so, 2) =~= so);
    } else {
        assert(so =~= e);
    }
}

} // verus!
