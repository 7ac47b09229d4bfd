//! The emitters: each turns the validated model into one kind of generated
//! declaration, as source text.
use vstd::prelude::*;
use crate::bounds::{
    Bound, Capability, bounds_view, display_bounds_of, display_obligation, error_bounds_of,
    error_obligation, type_param_names, type_params,
};
use crate::ty::names_view;
use crate::model::{
    Field, GenericParam, Generics, Input, Member, Record, Shape, from_index, source_index,
};
use crate::validate::{ValidationError, enum_has_display, input_error, valid_input, validate, has_display};
use crate::plan::{
    BuilderV, DisplayPlanV, builder_of, display_plan_of, from_plan_of, provide_plan_of,
    source_plan_of,
};
use crate::plan::{
    DisplayPlan, FromPlan, ProvidePlan, SourcePlan, ThrowsPlan, display_plan, from_plan,
    provide_plan, source_plan, throws_plan, throws_plan_spec,
};
use crate::template::{ArgRefV, Piece, PieceV, pieces_view};
use crate::bounds::spec_capability;
use crate::validate::resolve;
use crate::text::push_char;
use crate::ty::{unoptional, unoptional_type};
use vstd::string::StringExecFns;

verus! {

/// The decimal digits of `n`.
pub open spec fn dec_text(n: nat) -> Seq<char>
    decreases n,
{
    if n < 10 {
        seq![digit_char(n)]
    } else {
        dec_text(n / 10).push(digit_char(n % 10))
    }
}

pub open spec fn digit_char(d: nat) -> char {
    if d == 0 { '0' } else if d == 1 { '1' } else if d == 2 { '2' } else if d == 3 { '3' }
    else if d == 4 { '4' } else if d == 5 { '5' } else if d == 6 { '6' } else if d == 7 { '7' }
    else if d == 8 { '8' } else { '9' }
}

fn digit(d: usize) -> (c: char)
    requires
        d < 10,
    ensures
        c == digit_char(d as nat),
{
    if d == 0 { '0' } else if d == 1 { '1' } else if d == 2 { '2' } else if d == 3 { '3' }
    else if d == 4 { '4' } else if d == 5 { '5' } else if d == 6 { '6' } else if d == 7 { '7' }
    else if d == 8 { '8' } else { '9' }
}

/// Appends the decimal digits of `n`.
pub fn push_dec(out: &mut String, n: usize)
    ensures
        final(out)@ == old(out)@ + dec_text(n as nat),
    decreases n,
{
    if n >= 10 {
        push_dec(out, n / 10);
    }
    push_char(out, digit(n % 10));
    assert(final(out)@ =~= old(out)@ + dec_text(n as nat));
}

/// The text of a member in a field access or a struct pattern: the name, or
/// the position.
pub open spec fn member_text(m: Member) -> Seq<char> {
    match m {
        Member::Named { name } => name@,
        Member::Unnamed { index } => dec_text(index as nat),
    }
}

/// The local name a member is bound to: the name, or `_` and the position.
pub open spec fn binding_text(m: Member) -> Seq<char> {
    match m {
        Member::Named { name } => name@,
        Member::Unnamed { index } => seq!['_'] + dec_text(index as nat),
    }
}

pub fn push_member(out: &mut String, m: &Member)
    ensures
        final(out)@ == old(out)@ + member_text(*m),
{
    match m {
        Member::Named { name } => out.append(name.as_str()),
        Member::Unnamed { index } => push_dec(out, *index),
    }
}

pub fn push_binding(out: &mut String, m: &Member)
    ensures
        final(out)@ == old(out)@ + binding_text(*m),
{
    match m {
        Member::Named { name } => out.append(name.as_str()),
        Member::Unnamed { index } => {
            push_char(out, '_');
            push_dec(out, *index);
            assert(final(out)@ =~= old(out)@ + binding_text(*m));
        },
    }
}

/// The bindings of `fs[..n]`, separated by commas.
pub open spec fn pat_items(fs: Seq<Field>, n: int) -> Seq<char>
    decreases n,
{
    if n <= 0 {
        seq![]
    } else if n == 1 {
        binding_text(fs[0].member)
    } else {
        pat_items(fs, n - 1) + ", "@ + binding_text(fs[n - 1].member)
    }
}

/// The pattern that binds every field of a record: `{ a, b }` for named
/// fields, `(_0, _1)` for positional ones, `{}` for none.
pub open spec fn fields_pat_text(fs: Seq<Field>) -> Seq<char> {
    if fs.len() == 0 {
        "{}"@
    } else if fs[0].member is Named {
        "{ "@ + pat_items(fs, fs.len() as int) + " }"@
    } else {
        "("@ + pat_items(fs, fs.len() as int) + ")"@
    }
}

/// The pattern that binds every field of a record.
pub fn fields_pat(fs: &Vec<Field>) -> (r: String)
    ensures
        r@ == fields_pat_text(fs@),
{
    let mut r = String::new();
    if fs.len() == 0 {
        r.append("{}");
        return r;
    }
    let named = match &fs[0].member {
        Member::Named { .. } => true,
        Member::Unnamed { .. } => false,
    };
    r.append(if named { "{ " } else { "(" });
    let ghost open = if named { "{ "@ } else { "("@ };
    assert(r@ =~= open + pat_items(fs@, 0));
    let mut i: usize = 0;
    while i < fs.len()
        invariant
            i <= fs.len(),
            r@ == open + pat_items(fs@, i as int),
        decreases fs.len() - i,
    {
        if i > 0 {
            r.append(", ");
        }
        push_binding(&mut r, &fs[i].member);
        assert(r@ =~= open + pat_items(fs@, i + 1));
        i += 1;
    }
    r.append(if named { " }" } else { ")" });
    r
}

/// The statement that brings the bonus display adapter into scope, when
/// some interpolation needs it.
pub fn use_as_display(needed: bool) -> (r: String)
    ensures
        !needed ==> r@.len() == 0,
        needed ==> r@ == "use thiserror::__private::AsDisplay as _;\n"@,
{
    if needed {
        String::from_str("use thiserror::__private::AsDisplay as _;\n")
    } else {
        String::new()
    }
}

/// How a capability is written in a bound.
pub open spec fn cap_str(c: Capability) -> Seq<char> {
    match c {
        Capability::Debug => "::core::fmt::Debug"@,
        Capability::Display => "::core::fmt::Display"@,
        Capability::Error => "std::error::Error"@,
        Capability::ErrorStatic => "std::error::Error + 'static"@,
        Capability::LowerHex => "::core::fmt::LowerHex"@,
        Capability::UpperHex => "::core::fmt::UpperHex"@,
        Capability::Octal => "::core::fmt::Octal"@,
        Capability::Binary => "::core::fmt::Binary"@,
        Capability::LowerExp => "::core::fmt::LowerExp"@,
        Capability::UpperExp => "::core::fmt::UpperExp"@,
    }
}

fn cap_text(c: Capability) -> (r: &'static str)
    ensures
        r@ == cap_str(c),
{
    match c {
        Capability::Debug => "::core::fmt::Debug",
        Capability::Display => "::core::fmt::Display",
        Capability::Error => "std::error::Error",
        Capability::ErrorStatic => "std::error::Error + 'static",
        Capability::LowerHex => "::core::fmt::LowerHex",
        Capability::UpperHex => "::core::fmt::UpperHex",
        Capability::Octal => "::core::fmt::Octal",
        Capability::Binary => "::core::fmt::Binary",
        Capability::LowerExp => "::core::fmt::LowerExp",
        Capability::UpperExp => "::core::fmt::UpperExp",
    }
}

/// The declarations (`decls`) or names of `ps[..n]`, separated by commas.
pub open spec fn params_text(ps: Seq<GenericParam>, decls: bool, n: int) -> Seq<char>
    decreases n,
{
    if n <= 0 {
        seq![]
    } else {
        let item = if decls { ps[n - 1].decl@ } else { ps[n - 1].name@ };
        if n == 1 {
            item
        } else {
            params_text(ps, decls, n - 1) + ", "@ + item
        }
    }
}

/// `<...>` of the parameters (declarations or names), with `extra` last.
pub open spec fn generics_text(g: Generics, decls: bool, extra: Option<Seq<char>>) -> Seq<char> {
    let ps = g.params@;
    if ps.len() == 0 && extra is None {
        seq![]
    } else {
        "<"@ + params_text(ps, decls, ps.len() as int) + (match extra {
            Some(e) => if ps.len() > 0 {
                ", "@ + e
            } else {
                e
            },
            None => seq![],
        }) + ">"@
    }
}

pub open spec fn opt_view(e: Option<&str>) -> Option<Seq<char>> {
    match e {
        Some(x) => Some(x@),
        None => None,
    }
}

/// `<decl, ...>` (or `<name, ...>`) of the parameters, with `extra` appended.
fn generics_str(g: &Generics, decls: bool, extra: Option<&str>) -> (r: String)
    ensures
        r@ == generics_text(*g, decls, opt_view(extra)),
{
    let mut r = String::new();
    if g.params.len() == 0 && extra.is_none() {
        return r;
    }
    r.append("<");
    let ps = &g.params;
    let mut i: usize = 0;
    while i < ps.len()
        invariant
            i <= ps.len(),
            r@ == "<"@ + params_text(ps@, decls, i as int),
        decreases ps.len() - i,
    {
        if i > 0 {
            r.append(", ");
        }
        if decls {
            r.append(ps[i].decl.as_str());
        } else {
            r.append(ps[i].name.as_str());
        }
        assert(r@ =~= "<"@ + params_text(ps@, decls, i + 1));
        i += 1;
    }
    if let Some(e) = extra {
        if ps.len() > 0 {
            r.append(", ");
        }
        r.append(e);
    }
    r.append(">");
    assert(r@ =~= generics_text(*g, decls, opt_view(extra)));
    r
}

fn impl_generics(g: &Generics, extra: Option<&str>) -> (r: String)
    ensures
        r@ == generics_text(*g, true, opt_view(extra)),
{
    generics_str(g, true, extra)
}

fn ty_generics(g: &Generics, extra: Option<&str>) -> (r: String)
    ensures
        r@ == generics_text(*g, false, opt_view(extra)),
{
    generics_str(g, false, extra)
}

/// Each predicate of `ps[..n]` followed by a comma.
pub open spec fn preds_text(ps: Seq<String>, n: int) -> Seq<char>
    decreases n,
{
    if n <= 0 {
        seq![]
    } else {
        preds_text(ps, n - 1) + ps[n - 1]@ + ", "@
    }
}

/// Each obligation of `bs[..n]`, as `type: capability,`.
pub open spec fn bounds_text(bs: Seq<(Seq<char>, Capability)>, n: int) -> Seq<char>
    decreases n,
{
    if n <= 0 {
        seq![]
    } else {
        bounds_text(bs, n - 1) + bs[n - 1].0 + ": "@ + cap_str(bs[n - 1].1) + ", "@
    }
}

/// The written `where` clause augmented with obligations `bs`.
pub open spec fn where_text(g: Generics, bs: Seq<(Seq<char>, Capability)>) -> Seq<char> {
    if g.predicates@.len() == 0 && bs.len() == 0 {
        seq![]
    } else {
        " where "@ + preds_text(g.predicates@, g.predicates@.len() as int) + bounds_text(bs, bs.len() as int)
    }
}

/// The written `where` clause, augmented with `bounds`.
fn where_clause(g: &Generics, bounds: &Vec<Bound>) -> (r: String)
    ensures
        r@ == where_text(*g, bounds_view(bounds@)),
{
    let mut r = String::new();
    if g.predicates.len() == 0 && bounds.len() == 0 {
        return r;
    }
    r.append(" where ");
    let ghost head = r@;
    let mut i: usize = 0;
    while i < g.predicates.len()
        invariant
            i <= g.predicates@.len(),
            r@ == head + preds_text(g.predicates@, i as int),
        decreases g.predicates.len() - i,
    {
        r.append(g.predicates[i].as_str());
        r.append(", ");
        assert(r@ =~= head + preds_text(g.predicates@, i + 1));
        i += 1;
    }
    let ghost mid = r@;
    let ghost bv = bounds_view(bounds@);
    let mut j: usize = 0;
    while j < bounds.len()
        invariant
            j <= bounds@.len(),
            bv == bounds_view(bounds@),
            r@ == mid + bounds_text(bv, j as int),
        decreases bounds.len() - j,
    {
        r.append(bounds[j].subject.as_str());
        r.append(": ");
        r.append(cap_text(bounds[j].cap));
        r.append(", ");
        assert(bv[j as int] == bounds@[j as int]@);
        assert(r@ =~= mid + bounds_text(bv, j + 1));
        j += 1;
    }
    assert(r@ =~= where_text(*g, bv));
    r
}

/// `acc` with obligation `b` added at the end unless already present.
pub open spec fn insert_spec(acc: Seq<(Seq<char>, Capability)>, b: (Seq<char>, Capability)) -> Seq<
    (Seq<char>, Capability),
> {
    if acc.contains(b) {
        acc
    } else {
        acc.push(b)
    }
}

/// `acc` with the obligations `bs[..n]` added in order, without repeats.
pub open spec fn insert_all_spec(
    acc: Seq<(Seq<char>, Capability)>,
    bs: Seq<(Seq<char>, Capability)>,
    n: int,
) -> Seq<(Seq<char>, Capability)>
    decreases n,
{
    if n <= 0 {
        acc
    } else {
        insert_spec(insert_all_spec(acc, bs, n - 1), bs[n - 1])
    }
}

/// Adds `b` to `v` unless an equal obligation is already there.
///
/// Obligations are kept in a vector without repeats, in the order the
/// emitters read the fields, rather than in an ordered set: an ordered set
/// would be keyed by a pair of a type's text and a `Capability`, whose order
/// comes from a derived `Ord` that the verifier does not read, so nothing
/// about its contents could be proved. The order of predicates in a `where`
/// clause does not change what the compiler accepts.
pub fn insert_bound(v: &mut Vec<Bound>, b: Bound)
    ensures
        bounds_view(final(v)@) == insert_spec(bounds_view(old(v)@), b@),
{
    let ghost bv = b@;
    let mut i: usize = 0;
    while i < v.len()
        invariant
            i <= v.len(),
            bv == b@,
            forall|k: int| 0 <= k < i ==> #[trigger] v@[k]@ != b@,
        decreases v.len() - i,
    {
        if crate::ty::str_eq(v[i].subject.as_str(), b.subject.as_str()) && v[i].cap == b.cap {
            assert(bounds_view(v@)[i as int] == b@);
            return;
        }
        i += 1;
    }
    assert(!bounds_view(v@).contains(bv)) by {
        if bounds_view(v@).contains(bv) {
            let k = choose|k: int| 0 <= k < bounds_view(v@).len() && bounds_view(v@)[k] == bv;
            assert(v@[k]@ == bv);
        }
    }
    let ghost before = v@;
    v.push(b);
    assert(bounds_view(v@) =~= bounds_view(before).push(bv));
}

fn insert_all(v: &mut Vec<Bound>, bs: &Vec<Bound>)
    ensures
        bounds_view(final(v)@) == insert_all_spec(bounds_view(old(v)@), bounds_view(bs@), bs@.len() as int),
{
    let ghost start = bounds_view(v@);
    let ghost bsv = bounds_view(bs@);
    let mut i: usize = 0;
    while i < bs.len()
        invariant
            i <= bs@.len(),
            bsv == bounds_view(bs@),
            bounds_view(v@) == insert_all_spec(start, bsv, i as int),
        decreases bs.len() - i,
    {
        let nb = Bound { subject: bs[i].subject.clone(), cap: bs[i].cap };
        assert(nb@ == bsv[i as int]);
        insert_bound(v, nb);
        i += 1;
    }
}

/// The path of a record's constructor: the type, then `::Variant` for a
/// variant of a union.
pub open spec fn ctor_text(ty: Seq<char>, variant: Option<Seq<char>>) -> Seq<char> {
    match variant {
        Some(v) => ty + "::"@ + v,
        None => ty,
    }
}

pub open spec fn opt_string_view(v: Option<&String>) -> Option<Seq<char>> {
    match v {
        Some(x) => Some(x@),
        None => None,
    }
}

fn ctor_path(ty: &String, variant: Option<&String>) -> (r: String)
    ensures
        r@ == ctor_text(ty@, opt_string_view(variant)),
{
    let mut r = ty.clone();
    if let Some(v) = variant {
        r.append("::");
        r.append(v.as_str());
    }
    r
}

/// The body of a struct's cause lookup.
pub open spec fn struct_source_text(fs: Seq<Field>, plan: SourcePlan) -> Seq<char> {
    match plan {
        SourcePlan::Nothing => seq![],
        SourcePlan::Transparent => if fs.len() > 0 {
            "std::error::Error::source(self."@ + member_text(fs[0].member) + ".as_dyn_error())"@
        } else {
            seq![]
        },
        SourcePlan::Field { index, optional } => if index < fs.len() {
            "::core::option::Option::Some(self."@ + member_text(fs[index as int].member) + (if optional {
                ".as_ref()?"@
            } else {
                seq![]
            }) + ".as_dyn_error())"@
        } else {
            seq![]
        },
    }
}

/// The body of the cause lookup for a struct.
fn struct_source_body(r: &Record, plan: SourcePlan) -> (s: String)
    ensures
        s@ == struct_source_text(r.fields@, plan),
{
    let mut s = String::new();
    match plan {
        SourcePlan::Nothing => {},
        SourcePlan::Transparent => {
            if r.fields.len() > 0 {
                s.append("std::error::Error::source(self.");
                push_member(&mut s, &r.fields[0].member);
                s.append(".as_dyn_error())");
            }
        },
        SourcePlan::Field { index, optional } => {
            if index < r.fields.len() {
                s.append("::core::option::Option::Some(self.");
                push_member(&mut s, &r.fields[index].member);
                if optional {
                    s.append(".as_ref()?");
                }
                s.append(".as_dyn_error())");
            }
        },
    }
    assert(s@ =~= struct_source_text(r.fields@, plan));
    s
}

/// Forwarding of the trace request to the causal value, reached as `val`
/// and by reference as `refd`.
pub open spec fn forward_text(val: Seq<char>, refd: Seq<char>, optional: bool) -> Seq<char> {
    if optional {
        "if let ::core::option::Option::Some(source) = "@ + refd
            + " { source.thiserror_provide(request); }\n"@
    } else {
        val + ".thiserror_provide(request);\n"@
    }
}

/// The offer of the stored trace, reached by reference as `refd`.
pub open spec fn offer_text(refd: Seq<char>, optional: bool) -> Seq<char> {
    if optional {
        "if let ::core::option::Option::Some(backtrace) = "@ + refd
            + " { request.provide_ref::<std::backtrace::Backtrace>(backtrace); }\n"@
    } else {
        "request.provide_ref::<std::backtrace::Backtrace>("@ + refd + ");\n"@
    }
}

fn push_provide_forward(s: &mut String, val: &str, refd: &str, optional: bool)
    ensures
        final(s)@ == old(s)@ + forward_text(val@, refd@, optional),
{
    if optional {
        s.append("if let ::core::option::Option::Some(source) = ");
        s.append(refd);
        s.append(" { source.thiserror_provide(request); }\n");
    } else {
        s.append(val);
        s.append(".thiserror_provide(request);\n");
    }
    assert(final(s)@ =~= old(s)@ + forward_text(val@, refd@, optional));
}

fn push_provide_offer(s: &mut String, refd: &str, optional: bool)
    ensures
        final(s)@ == old(s)@ + offer_text(refd@, optional),
{
    if optional {
        s.append("if let ::core::option::Option::Some(backtrace) = ");
        s.append(refd);
        s.append(" { request.provide_ref::<std::backtrace::Backtrace>(backtrace); }\n");
    } else {
        s.append("request.provide_ref::<std::backtrace::Backtrace>(");
        s.append(refd);
        s.append(");\n");
    }
    assert(final(s)@ =~= old(s)@ + offer_text(refd@, optional));
}

/// How a field is reached in a method body, by value and by reference:
/// through `self`, or through the binding of a variant pattern (which is
/// already a reference).
pub open spec fn access_text(m: Member, by_self: bool, binding: Seq<char>) -> (Seq<char>, Seq<char>) {
    if by_self {
        ("self."@ + member_text(m), "&"@ + ("self."@ + member_text(m)))
    } else {
        (binding, binding)
    }
}

fn field_access(m: &Member, by_self: bool, binding: &str) -> (r: (String, String))
    ensures
        (r.0@, r.1@) == access_text(*m, by_self, binding@),
{
    if by_self {
        let mut val = String::new();
        val.append("self.");
        push_member(&mut val, m);
        let mut refd = String::new();
        refd.append("&");
        refd.append(val.as_str());
        (val, refd)
    } else {
        (String::from_str(binding), String::from_str(binding))
    }
}

/// The body of the trace provision of a record.
pub open spec fn provide_text(fs: Seq<Field>, plan: ProvidePlan, by_self: bool) -> Seq<char> {
    (match plan.forward {
        Some((k, opt)) => if k < fs.len() {
            let a = access_text(fs[k as int].member, by_self, "source"@);
            "use thiserror::__private::ThiserrorProvide;\n"@ + forward_text(a.0, a.1, opt)
        } else {
            seq![]
        },
        None => seq![],
    }) + (match plan.offer {
        Some((k, opt)) => if k < fs.len() {
            offer_text(access_text(fs[k as int].member, by_self, "backtrace"@).1, opt)
        } else {
            seq![]
        },
        None => seq![],
    })
}

/// The body of the trace provision.
fn provide_body(r: &Record, plan: ProvidePlan, by_self: bool) -> (s: String)
    ensures
        s@ == provide_text(r.fields@, plan, by_self),
{
    let mut s = String::new();
    if let Some((k, opt)) = plan.forward {
        if k < r.fields.len() {
            s.append("use thiserror::__private::ThiserrorProvide;\n");
            let (val, refd) = field_access(&r.fields[k].member, by_self, "source");
            push_provide_forward(&mut s, val.as_str(), refd.as_str(), opt);
        }
    }
    if let Some((k, opt)) = plan.offer {
        if k < r.fields.len() {
            let (_, refd) = field_access(&r.fields[k].member, by_self, "backtrace");
            push_provide_offer(&mut s, refd.as_str(), opt);
        }
    }
    assert(s@ =~= provide_text(r.fields@, plan, by_self));
    s
}

/// One literal character of a template, escaped for a format string inside
/// a string literal.
pub open spec fn escaped(c: char) -> Seq<char> {
    if c == '{' {
        "{{"@
    } else if c == '}' {
        "}}"@
    } else if c == '"' {
        "\\\""@
    } else if c == '\\' {
        "\\\\"@
    } else if c == '\n' {
        "\\n"@
    } else if c == '\r' {
        "\\r"@
    } else if c == '\t' {
        "\\t"@
    } else {
        seq![c]
    }
}

fn push_lit_escaped(s: &mut String, c: char)
    ensures
        final(s)@ == old(s)@ + escaped(c),
{
    if c == '{' {
        s.append("{{");
    } else if c == '}' {
        s.append("}}");
    } else if c == '"' {
        s.append("\\\"");
    } else if c == '\\' {
        s.append("\\\\");
    } else if c == '\n' {
        s.append("\\n");
    } else if c == '\r' {
        s.append("\\r");
    } else if c == '\t' {
        s.append("\\t");
    } else {
        push_char(s, c);
    }
}

/// The characters of `s[..n]`, each escaped.
pub open spec fn escaped_all(s: Seq<char>, n: int) -> Seq<char>
    decreases n,
{
    if n <= 0 {
        seq![]
    } else {
        escaped_all(s, n - 1) + escaped(s[n - 1])
    }
}

/// The field that an interpolation shows, when it names one.
pub open spec fn shown_field(a: ArgRefV, fs: Seq<Field>) -> Option<int> {
    match resolve(a, fs) {
        Some(k) => if 0 <= k < fs.len() {
            Some(k)
        } else {
            None
        },
        None => None,
    }
}

/// Whether an interpolation goes through the bonus display adapter: it
/// names a field and asks for `Display`.
pub open spec fn uses_adapter(p: PieceV, fs: Seq<Field>) -> bool {
    match p {
        PieceV::Arg(a, spec) => shown_field(a, fs) is Some && spec_capability(spec) == Some(
            Capability::Display,
        ),
        PieceV::Lit(_) => false,
    }
}

/// The name an interpolation is written with in the generated format string.
pub open spec fn arg_name(p: PieceV, fs: Seq<Field>) -> Seq<char> {
    match p {
        PieceV::Arg(a, _) => {
            let b = binding_text(fs[shown_field(a, fs)->0].member);
            if uses_adapter(p, fs) {
                "__display_"@ + b
            } else {
                b
            }
        },
        PieceV::Lit(_) => seq![],
    }
}

/// The statement that a piece needs before the format string.
pub open spec fn piece_let(p: PieceV, fs: Seq<Field>) -> Seq<char> {
    match p {
        PieceV::Arg(a, _) => if uses_adapter(p, fs) {
            "let "@ + arg_name(p, fs) + " = "@ + binding_text(fs[shown_field(a, fs)->0].member)
                + ".as_display();\n"@
        } else {
            seq![]
        },
        PieceV::Lit(_) => seq![],
    }
}

/// What a piece contributes to the generated format string.
pub open spec fn piece_fmt(p: PieceV, fs: Seq<Field>) -> Seq<char> {
    match p {
        PieceV::Lit(c) => escaped(c),
        PieceV::Arg(a, spec) => if shown_field(a, fs) is Some {
            "{"@ + arg_name(p, fs) + (if spec.len() > 0 {
                ":"@ + escaped_all(spec, spec.len() as int)
            } else {
                seq![]
            }) + "}"@
        } else {
            seq![]
        },
    }
}

pub open spec fn lets_text(ps: Seq<PieceV>, fs: Seq<Field>, n: int) -> Seq<char>
    decreases n,
{
    if n <= 0 {
        seq![]
    } else {
        lets_text(ps, fs, n - 1) + piece_let(ps[n - 1], fs)
    }
}

pub open spec fn fmt_text(ps: Seq<PieceV>, fs: Seq<Field>, n: int) -> Seq<char>
    decreases n,
{
    if n <= 0 {
        seq![]
    } else {
        fmt_text(ps, fs, n - 1) + piece_fmt(ps[n - 1], fs)
    }
}

/// The statements that render template pieces `ps` with the fields bound by
/// name: the adapter bindings, then one `write!` of the rewritten format
/// string.
pub open spec fn template_text(ps: Seq<PieceV>, fs: Seq<Field>) -> Seq<char> {
    lets_text(ps, fs, ps.len() as int) + "::core::write!(__formatter, \""@ + fmt_text(
        ps,
        fs,
        ps.len() as int,
    ) + "\")"@
}

/// Whether some piece of `ps` goes through the bonus display adapter.
pub open spec fn needs_adapter(ps: Seq<PieceV>, fs: Seq<Field>) -> bool {
    exists|j: int| 0 <= j < ps.len() && uses_adapter(#[trigger] ps[j], fs)
}

fn push_escaped_all(s: &mut String, spec: &String)
    ensures
        final(s)@ == old(s)@ + escaped_all(spec@, spec@.len() as int),
{
    let sp = crate::text::chars_of(spec.as_str());
    let ghost start = s@;
    let mut j: usize = 0;
    while j < sp.len()
        invariant
            j <= sp@.len(),
            sp@ == spec@,
            s@ == start + escaped_all(spec@, j as int),
        decreases sp.len() - j,
    {
        push_lit_escaped(s, sp[j]);
        assert(s@ =~= start + escaped_all(spec@, j + 1));
        j += 1;
    }
}

/// Appends what interpolation `p` (a piece of a template over `fs`) needs:
/// its adapter binding to `lets`, its placeholder to `fmt`.
fn push_piece(lets: &mut String, fmt: &mut String, fs: &Vec<Field>, p: &Piece) -> (bonus: bool)
    ensures
        final(lets)@ == old(lets)@ + piece_let(p@, fs@),
        final(fmt)@ == old(fmt)@ + piece_fmt(p@, fs@),
        bonus == uses_adapter(p@, fs@),
{
    match p {
        Piece::Lit { c } => {
            push_lit_escaped(fmt, *c);
            false
        },
        Piece::Arg { arg, spec } => {
            assert(p@ == PieceV::Arg(arg@, spec@));
            match crate::bounds::resolve_field(arg, fs) {
                None => false,
                Some(k) => {
                    let adapter = crate::bounds::capability_of(spec) == Some(Capability::Display);
                    let mut name = String::new();
                    if adapter {
                        name.append("__display_");
                    }
                    push_binding(&mut name, &fs[k].member);
                    assert(name@ == arg_name(p@, fs@));
                    if adapter {
                        lets.append("let ");
                        lets.append(name.as_str());
                        lets.append(" = ");
                        push_binding(lets, &fs[k].member);
                        lets.append(".as_display();\n");
                    }
                    fmt.append("{");
                    fmt.append(name.as_str());
                    if spec.as_str().unicode_len() > 0 {
                        fmt.append(":");
                        push_escaped_all(fmt, spec);
                    }
                    fmt.append("}");
                    assert(final(lets)@ =~= old(lets)@ + piece_let(p@, fs@));
                    assert(final(fmt)@ =~= old(fmt)@ + piece_fmt(p@, fs@));
                    adapter
                },
            }
        },
    }
}

/// The statements that render a template with the fields bound by name,
/// and whether the bonus display adapter is used.
fn template_body(fs: &Vec<Field>, pieces: &Vec<Piece>) -> (r: (String, bool))
    ensures
        r.0@ == template_text(pieces_view(pieces@), fs@),
        r.1 == needs_adapter(pieces_view(pieces@), fs@),
{
    let ghost ps = pieces_view(pieces@);
    let mut lets = String::new();
    let mut fmt = String::new();
    let mut bonus = false;
    let mut i: usize = 0;
    while i < pieces.len()
        invariant
            i <= pieces@.len(),
            ps == pieces_view(pieces@),
            lets@ == lets_text(ps, fs@, i as int),
            fmt@ == fmt_text(ps, fs@, i as int),
            bonus == exists|j: int| 0 <= j < i && uses_adapter(#[trigger] ps[j], fs@),
        decreases pieces.len() - i,
    {
        assert(ps[i as int] == pieces@[i as int]@);
        let b = push_piece(&mut lets, &mut fmt, fs, &pieces[i]);
        if b {
            bonus = true;
        }
        i += 1;
    }
    let mut out = lets;
    out.append("::core::write!(__formatter, \"");
    out.append(fmt.as_str());
    out.append("\")");
    (out, bonus)
}

/// The field initialisers of a conversion constructor: the conversion
/// source set to the argument (wrapped in `Some` for an optional field), and
/// the trace field, if any, set to a fresh capture.
pub open spec fn from_initializer_text(fs: Seq<Field>, plan: FromPlan) -> Seq<char> {
    "{ "@ + (if plan.from < fs.len() {
        member_text(fs[plan.from as int].member) + ": "@ + (if plan.wrap_some {
            "::core::option::Option::Some(source)"@
        } else {
            "source"@
        }) + ", "@
    } else {
        seq![]
    }) + (match plan.backtrace {
        Some((b, opt)) => if b < fs.len() {
            member_text(fs[b as int].member) + (if opt {
                ": ::core::option::Option::Some(std::backtrace::Backtrace::capture()), "@
            } else {
                ": ::core::convert::From::from(std::backtrace::Backtrace::capture()), "@
            })
        } else {
            seq![]
        },
        None => seq![],
    }) + "}"@
}

/// The conversion constructor's field initialisers.
pub fn from_initializer(r: &Record, plan: FromPlan) -> (s: String)
    ensures
        s@ == from_initializer_text(r.fields@, plan),
{
    let mut s = String::new();
    s.append("{ ");
    if plan.from < r.fields.len() {
        push_member(&mut s, &r.fields[plan.from].member);
        s.append(": ");
        if plan.wrap_some {
            s.append("::core::option::Option::Some(source)");
        } else {
            s.append("source");
        }
        s.append(", ");
    }
    if let Some((b, opt)) = plan.backtrace {
        if b < r.fields.len() {
            push_member(&mut s, &r.fields[b].member);
            if opt {
                s.append(": ::core::option::Option::Some(std::backtrace::Backtrace::capture()), ");
            } else {
                s.append(": ::core::convert::From::from(std::backtrace::Backtrace::capture()), ");
            }
        }
    }
    s.append("}");
    assert(s@ =~= from_initializer_text(r.fields@, plan));
    s
}

/// The texts `v[..n]`, one after the other.
pub open spec fn concat_all(v: Seq<String>, n: int) -> Seq<char>
    decreases n,
{
    if n <= 0 {
        seq![]
    } else {
        concat_all(v, n - 1) + v[n - 1]@
    }
}

/// The generated declarations for one definition, by emitter.
pub struct Expansion {
    /// The implementation of the error interface.
    pub error_impl: String,
    /// The implementation of the formatting interface, when the type displays.
    pub display_impl: Option<String>,
    /// One conversion constructor per record with a conversion source.
    pub from_impls: Vec<String>,
    /// One throw-builder capability per record with a causal field.
    pub throws: Vec<String>,
    /// For each record (the struct body, or each variant in order), the
    /// conversion constructor it receives.
    pub conversions: Vec<Option<FromPlan>>,
    /// For each record, the throw-builder capability it receives.
    pub builders: Vec<Option<ThrowsPlan>>,
    /// For each record, how its cause lookup answers.
    pub causes: Vec<SourcePlan>,
    /// For each record, how its trace provision answers.
    pub traces: Vec<Option<ProvidePlan>>,
}

impl Expansion {
    /// All declarations, in emitter order.
    pub fn text(&self) -> (r: String)
        ensures
            r@ == expansion_text(*self),
    {
        let mut r = self.error_impl.clone();
        if let Some(d) = &self.display_impl {
            r.append(d.as_str());
        }
        let ghost head = r@;
        let mut i: usize = 0;
        while i < self.from_impls.len()
            invariant
                i <= self.from_impls@.len(),
                r@ == head + concat_all(self.from_impls@, i as int),
            decreases self.from_impls.len() - i,
        {
            r.append(self.from_impls[i].as_str());
            assert(r@ =~= head + concat_all(self.from_impls@, i + 1));
            i += 1;
        }
        let ghost mid = r@;
        let mut j: usize = 0;
        while j < self.throws.len()
            invariant
                j <= self.throws@.len(),
                r@ == mid + concat_all(self.throws@, j as int),
            decreases self.throws.len() - j,
        {
            r.append(self.throws[j].as_str());
            assert(r@ =~= mid + concat_all(self.throws@, j + 1));
            j += 1;
        }
        assert(head + concat_all(self.from_impls@, self.from_impls@.len() as int) == mid);
        r
    }
}

/// The cause lookup method around `body`.
pub open spec fn source_method_text(body: Seq<char>) -> Seq<char> {
    "fn source(&self) -> ::core::option::Option<&(dyn std::error::Error + 'static)> {\nuse thiserror::__private::AsDynError;\n"@
        + body + "\n}\n"@
}

fn source_method(body: &String) -> (s: String)
    ensures
        s@ == source_method_text(body@),
{
    let mut s = String::new();
    s.append("fn source(&self) -> ::core::option::Option<&(dyn std::error::Error + 'static)> {\nuse thiserror::__private::AsDynError;\n");
    s.append(body.as_str());
    s.append("\n}\n");
    s
}

/// The trace provision method around `body`.
pub open spec fn provide_method_text(body: Seq<char>) -> Seq<char> {
    "fn provide<'_request>(&'_request self, request: &mut std::error::Request<'_request>) {\n"@ + body
        + "}\n"@
}

fn provide_method(body: &String) -> (s: String)
    ensures
        s@ == provide_method_text(body@),
{
    let mut s = String::new();
    s.append("fn provide<'_request>(&'_request self, request: &mut std::error::Request<'_request>) {\n");
    s.append(body.as_str());
    s.append("}\n");
    s
}

/// The implementation of the error interface with `methods`, under the
/// type's generics and `where` clause augmented with `bs`.
pub open spec fn error_impl_spec(ident: Seq<char>, g: Generics, bs: Seq<(Seq<char>, Capability)>, methods: Seq<char>) -> Seq<char> {
    "#[allow(unused_qualifications)]\nimpl"@ + generics_text(g, true, None) + " std::error::Error for "@
        + ident + generics_text(g, false, None) + where_text(g, bs) + " {\n"@ + methods + "}\n"@
}

fn error_impl_text(ident: &String, g: &Generics, bounds: &Vec<Bound>, methods: &String) -> (s: String)
    ensures
        s@ == error_impl_spec(ident@, *g, bounds_view(bounds@), methods@),
{
    let mut s = String::new();
    s.append("#[allow(unused_qualifications)]\nimpl");
    s.append(impl_generics(g, None).as_str());
    s.append(" std::error::Error for ");
    s.append(ident.as_str());
    s.append(ty_generics(g, None).as_str());
    s.append(where_clause(g, bounds).as_str());
    s.append(" {\n");
    s.append(methods.as_str());
    s.append("}\n");
    assert(s@ =~= error_impl_spec(ident@, *g, bounds_view(bounds@), methods@));
    s
}

/// The implementation of the formatting interface around `body`.
pub open spec fn display_impl_spec(ident: Seq<char>, g: Generics, bs: Seq<(Seq<char>, Capability)>, body: Seq<char>) -> Seq<char> {
    "#[allow(unused_qualifications)]\nimpl"@ + generics_text(g, true, None) + " ::core::fmt::Display for "@
        + ident + generics_text(g, false, None) + where_text(g, bs)
        + " {\n#[allow(clippy::used_underscore_binding)]\nfn fmt(&self, __formatter: &mut ::core::fmt::Formatter) -> ::core::fmt::Result {\n"@
        + body + "\n}\n}\n"@
}

fn display_impl_text(ident: &String, g: &Generics, bounds: &Vec<Bound>, body: &String) -> (s: String)
    ensures
        s@ == display_impl_spec(ident@, *g, bounds_view(bounds@), body@),
{
    let mut s = String::new();
    s.append("#[allow(unused_qualifications)]\nimpl");
    s.append(impl_generics(g, None).as_str());
    s.append(" ::core::fmt::Display for ");
    s.append(ident.as_str());
    s.append(ty_generics(g, None).as_str());
    s.append(where_clause(g, bounds).as_str());
    s.append(" {\n#[allow(clippy::used_underscore_binding)]\nfn fmt(&self, __formatter: &mut ::core::fmt::Formatter) -> ::core::fmt::Result {\n");
    s.append(body.as_str());
    s.append("\n}\n}\n");
    assert(s@ =~= display_impl_spec(ident@, *g, bounds_view(bounds@), body@));
    s
}

/// The conversion constructor of a record: `From` the unwrapped type of the
/// conversion source, for the type.
pub open spec fn from_impl_spec(ident: Seq<char>, g: Generics, fs: Seq<Field>, variant: Option<Seq<char>>, plan: FromPlan) -> Seq<char> {
    if plan.from >= fs.len() {
        seq![]
    } else {
        let from = unoptional(fs[plan.from as int].ty).text@;
        "#[allow(unused_qualifications)]\nimpl"@ + generics_text(g, true, None) + " ::core::convert::From<"@
            + from + "> for "@ + ident + generics_text(g, false, None) + where_text(g, seq![])
            + " {\n#[allow(deprecated)]\nfn from(source: "@ + from + ") -> Self {\n"@ + ctor_text(ident, variant)
            + " "@ + from_initializer_text(fs, plan) + "\n}\n}\n"@
    }
}

fn from_impl_text(ident: &String, g: &Generics, r: &Record, variant: Option<&String>, plan: FromPlan) -> (s: String)
    ensures
        s@ == from_impl_spec(ident@, *g, r.fields@, opt_string_view(variant), plan),
{
    let mut s = String::new();
    if plan.from >= r.fields.len() {
        return s;
    }
    let from = unoptional_type(&r.fields[plan.from].ty);
    let no_bounds: Vec<Bound> = Vec::new();
    assert(bounds_view(no_bounds@) =~= Seq::<(Seq<char>, Capability)>::empty());
    s.append("#[allow(unused_qualifications)]\nimpl");
    s.append(impl_generics(g, None).as_str());
    s.append(" ::core::convert::From<");
    s.append(from.text.as_str());
    s.append("> for ");
    s.append(ident.as_str());
    s.append(ty_generics(g, None).as_str());
    s.append(where_clause(g, &no_bounds).as_str());
    s.append(" {\n#[allow(deprecated)]\nfn from(source: ");
    s.append(from.text.as_str());
    s.append(") -> Self {\n");
    s.append(ctor_path(ident, variant).as_str());
    s.append(" ");
    s.append(from_initializer(r, plan).as_str());
    s.append("\n}\n}\n");
    assert(s@ =~= from_impl_spec(ident@, *g, r.fields@, opt_string_view(variant), plan));
    s
}

/// The name of the builder parameter for the `j`-th extra field: the field's
/// name, or `_` and `j` for a positional field.
pub open spec fn param_name_text(f: Field, j: int) -> Seq<char> {
    match f.member {
        Member::Named { name } => name@,
        Member::Unnamed { .. } => "_"@ + dec_text(j as nat),
    }
}

fn param_name(f: &Field, j: usize) -> (s: String)
    ensures
        s@ == param_name_text(*f, j as int),
{
    let mut s = String::new();
    match &f.member {
        Member::Named { name } => s.append(name.as_str()),
        Member::Unnamed { .. } => {
            s.append("_");
            push_dec(&mut s, j);
        },
    }
    s
}

/// One item of the builder's parameter list: `name: Type` (`mode` 0), the
/// name alone (1), or the type alone (2).
pub open spec fn extra_item(fs: Seq<Field>, extra: Seq<usize>, j: int, mode: int) -> Seq<char> {
    let f = fs[extra[j] as int];
    if mode == 0 {
        param_name_text(f, j) + ": "@ + f.ty.text@
    } else if mode == 1 {
        param_name_text(f, j)
    } else {
        f.ty.text@
    }
}

/// The items of the first `n` extra fields, separated by commas.
pub open spec fn extras_text(fs: Seq<Field>, extra: Seq<usize>, n: int, mode: int) -> Seq<char>
    decreases n,
{
    if n <= 0 {
        seq![]
    } else if n == 1 {
        extra_item(fs, extra, 0, mode)
    } else {
        extras_text(fs, extra, n - 1, mode) + ", "@ + extra_item(fs, extra, n - 1, mode)
    }
}

fn extras_list(fs: &Vec<Field>, extra: &Vec<usize>, mode: usize) -> (s: String)
    requires
        forall|i: int| 0 <= i < extra@.len() ==> #[trigger] extra@[i] < fs@.len(),
    ensures
        s@ == extras_text(fs@, extra@, extra@.len() as int, mode as int),
{
    let mut s = String::new();
    let mut j: usize = 0;
    while j < extra.len()
        invariant
            j <= extra@.len(),
            forall|i: int| 0 <= i < extra@.len() ==> #[trigger] extra@[i] < fs@.len(),
            s@ == extras_text(fs@, extra@, j as int, mode as int),
        decreases extra.len() - j,
    {
        let k = extra[j];
        let f = &fs[k];
        if j > 0 {
            s.append(", ");
        }
        if mode == 0 {
            s.append(param_name(f, j).as_str());
            s.append(": ");
            s.append(f.ty.text.as_str());
        } else if mode == 1 {
            s.append(param_name(f, j).as_str());
        } else {
            s.append(f.ty.text.as_str());
        }
        assert(s@ =~= extras_text(fs@, extra@, j + 1, mode as int));
        j += 1;
    }
    s
}

/// The arguments of a positional constructor over fields `fs[..n]`: `e` at
/// the causal field, the builder parameters in order at the extra fields;
/// with the number of extra fields used so far.
pub open spec fn tuple_args(fs: Seq<Field>, plan: BuilderV, n: int) -> (Seq<char>, int)
    decreases n,
{
    if n <= 0 {
        (seq![], 0)
    } else {
        let (pre, e) = tuple_args(fs, plan, n - 1);
        let sep = if n > 1 { ", "@ } else { seq![] };
        if n - 1 == plan.source {
            (pre + sep + "e"@, e)
        } else if 0 <= e < plan.extra.len() && plan.extra[e] == n - 1 {
            (pre + sep + param_name_text(fs[n - 1], e), e + 1)
        } else {
            (pre + sep, e)
        }
    }
}

/// The expression that builds the record from the failure `e` and the
/// builder parameters.
pub open spec fn ctor_expr(ident: Seq<char>, fs: Seq<Field>, variant: Option<Seq<char>>, plan: BuilderV) -> Seq<char> {
    let path = ctor_text(ident, variant);
    if fs[plan.source].member is Named {
        path + " { "@ + member_text(fs[plan.source].member) + ": e"@ + (if plan.extra.len() > 0 {
            ", "@ + extras_text(fs, plan.extra, plan.extra.len() as int, 1)
        } else {
            seq![]
        }) + " }"@
    } else {
        path + "("@ + tuple_args(fs, plan, fs.len() as int).0 + ")"@
    }
}

proof fn lemma_tuple_args_count(fs: Seq<Field>, plan: BuilderV, n: int)
    ensures
        0 <= tuple_args(fs, plan, n).1 <= if n < 0 { 0 } else { n },
    decreases n,
{
    if n > 0 {
        lemma_tuple_args_count(fs, plan, n - 1);
    }
}

fn ctor_expr_text(ident: &String, r: &Record, variant: Option<&String>, plan: &ThrowsPlan) -> (s: String)
    requires
        plan.source < r.fields@.len(),
        forall|i: int| 0 <= i < plan.extra@.len() ==> #[trigger] plan.extra@[i] < r.fields@.len(),
    ensures
        s@ == ctor_expr(ident@, r.fields@, opt_string_view(variant), plan@),
{
    let fs = &r.fields;
    let mut ctor = ctor_path(ident, variant);
    let named = match &fs[plan.source].member {
        Member::Named { .. } => true,
        Member::Unnamed { .. } => false,
    };
    if named {
        ctor.append(" { ");
        push_member(&mut ctor, &fs[plan.source].member);
        ctor.append(": e");
        if plan.extra.len() > 0 {
            ctor.append(", ");
            ctor.append(extras_list(fs, &plan.extra, 1).as_str());
        }
        ctor.append(" }");
    } else {
        ctor.append("(");
        let ghost head = ctor@;
        let mut k: usize = 0;
        let mut e: usize = 0;
        while k < fs.len()
            invariant
                k <= fs@.len(),
                plan.source < fs@.len(),
                ctor@ == head + tuple_args(fs@, plan@, k as int).0,
                e as int == tuple_args(fs@, plan@, k as int).1,
                e <= k,
            decreases fs.len() - k,
        {
            proof {
                lemma_tuple_args_count(fs@, plan@, k as int);
            }
            if k > 0 {
                ctor.append(", ");
            }
            if k == plan.source {
                ctor.append("e");
            } else if e < plan.extra.len() && plan.extra[e] == k {
                ctor.append(param_name(&fs[k], e).as_str());
                e = e + 1;
            }
            assert(ctor@ =~= head + tuple_args(fs@, plan@, k + 1).0);
            k += 1;
        }
        ctor.append(")");
    }
    assert(ctor@ =~= ctor_expr(ident@, r.fields@, opt_string_view(variant), plan@));
    ctor
}

/// `) -> Result<__RETURN, Type<..>>`, the end of a builder signature.
pub open spec fn ret_text(ident: Seq<char>, g: Generics) -> Seq<char> {
    ") -> Result<__RETURN, "@ + ident + generics_text(g, false, None) + ">"@
}

pub open spec fn throw_sig_text(ident: Seq<char>, g: Generics, fs: Seq<Field>, plan: BuilderV) -> Seq<char> {
    "fn "@ + plan.throw + "(self"@ + (if plan.extra.len() > 0 {
        ", "@ + extras_text(fs, plan.extra, plan.extra.len() as int, 0)
    } else {
        seq![]
    }) + ret_text(ident, g)
}

/// `T` for one extra field, `(T1, T2)` for several.
pub open spec fn supplied_text(fs: Seq<Field>, plan: BuilderV, mode: int) -> Seq<char> {
    let items = extras_text(fs, plan.extra, plan.extra.len() as int, mode);
    if plan.extra.len() == 1 {
        items
    } else {
        "("@ + items + ")"@
    }
}

pub open spec fn with_sig_text(ident: Seq<char>, g: Generics, fs: Seq<Field>, plan: BuilderV) -> Seq<char> {
    match plan.with {
        Some(w) => "fn "@ + w + "<F: FnOnce() -> "@ + supplied_text(fs, plan, 2) + ">(self, f: F"@ + ret_text(ident, g),
        None => seq![],
    }
}

pub open spec fn return_param() -> Option<Seq<char>> {
    Some("__RETURN"@)
}

/// The declaration of the throw-builder capability.
pub open spec fn decl_spec(g: Generics, plan: BuilderV, throw_sig: Seq<char>, with_sig: Seq<char>) -> Seq<char> {
    "trait "@ + plan.trait_name + generics_text(g, true, return_param()) + where_text(g, seq![]) + " {\n"@
        + throw_sig + ";\n"@ + (if plan.with is Some { with_sig + ";\n"@ } else { seq![] }) + "}\n"@
}

/// The implementation of the capability for the result shape whose failure
/// channel carries `source_ty`.
pub open spec fn impl_spec(
    g: Generics,
    plan: BuilderV,
    source_ty: Seq<char>,
    throw_sig: Seq<char>,
    with_sig: Seq<char>,
    supplied: Seq<char>,
    ctor: Seq<char>,
) -> Seq<char> {
    "impl"@ + generics_text(g, true, return_param()) + " "@ + plan.trait_name + generics_text(
        g,
        false,
        return_param(),
    ) + " for Result<__RETURN, "@ + source_ty + ">"@ + where_text(g, seq![]) + " {\n"@ + throw_sig
        + " {\nself.map_err(|e| "@ + ctor + ")\n}\n"@ + (if plan.with is Some {
        with_sig + " {\nself.map_err(|e| {\nlet "@ + supplied + " = f();\n"@ + ctor + "\n})\n}\n"@
    } else {
        seq![]
    }) + "}\n"@
}

/// The throw-builder capability and its implementation for the result shape
/// whose failure channel carries the causal field's type.
pub open spec fn throws_spec(ident: Seq<char>, g: Generics, fs: Seq<Field>, variant: Option<Seq<char>>, plan: BuilderV) -> Seq<char> {
    let throw_sig = throw_sig_text(ident, g, fs, plan);
    let with_sig = with_sig_text(ident, g, fs, plan);
    decl_spec(g, plan, throw_sig, with_sig) + impl_spec(
        g,
        plan,
        fs[plan.source].ty.text@,
        throw_sig,
        with_sig,
        supplied_text(fs, plan, 1),
        ctor_expr(ident, fs, variant, plan),
    )
}

fn no_where(g: &Generics) -> (r: String)
    ensures
        r@ == where_text(*g, seq![]),
{
    let no_bounds: Vec<Bound> = Vec::new();
    assert(bounds_view(no_bounds@) =~= Seq::<(Seq<char>, Capability)>::empty());
    where_clause(g, &no_bounds)
}

fn supplied(fs: &Vec<Field>, plan: &ThrowsPlan, mode: usize) -> (r: String)
    requires
        forall|i: int| 0 <= i < plan.extra@.len() ==> #[trigger] plan.extra@[i] < fs@.len(),
    ensures
        r@ == supplied_text(fs@, plan@, mode as int),
{
    let items = extras_list(fs, &plan.extra, mode);
    if plan.extra.len() == 1 {
        items
    } else {
        let mut r = String::from_str("(");
        r.append(items.as_str());
        r.append(")");
        r
    }
}

fn signatures(ident: &String, g: &Generics, fs: &Vec<Field>, plan: &ThrowsPlan) -> (r: (String, String))
    requires
        forall|i: int| 0 <= i < plan.extra@.len() ==> #[trigger] plan.extra@[i] < fs@.len(),
    ensures
        r.0@ == throw_sig_text(ident@, *g, fs@, plan@),
        r.1@ == with_sig_text(ident@, *g, fs@, plan@),
{
    let mut ret = String::from_str(") -> Result<__RETURN, ");
    ret.append(ident.as_str());
    ret.append(ty_generics(g, None).as_str());
    ret.append(">");
    let mut throw_sig = String::from_str("fn ");
    throw_sig.append(plan.throw_method.as_str());
    throw_sig.append("(self");
    if plan.extra.len() > 0 {
        throw_sig.append(", ");
        throw_sig.append(extras_list(fs, &plan.extra, 0).as_str());
    }
    throw_sig.append(ret.as_str());
    assert(throw_sig@ =~= throw_sig_text(ident@, *g, fs@, plan@));
    let mut with_sig = String::new();
    if let Some(w) = &plan.with_method {
        with_sig.append("fn ");
        with_sig.append(w.as_str());
        with_sig.append("<F: FnOnce() -> ");
        with_sig.append(supplied(fs, plan, 2).as_str());
        with_sig.append(">(self, f: F");
        with_sig.append(ret.as_str());
    }
    assert(with_sig@ =~= with_sig_text(ident@, *g, fs@, plan@));
    (throw_sig, with_sig)
}

fn decl_text(g: &Generics, plan: &ThrowsPlan, throw_sig: &String, with_sig: &String) -> (out: String)
    ensures
        out@ == decl_spec(*g, plan@, throw_sig@, with_sig@),
{
    let mut out = String::new();
    out.append("trait ");
    out.append(plan.trait_name.as_str());
    out.append(impl_generics(g, Some("__RETURN")).as_str());
    out.append(no_where(g).as_str());
    out.append(" {\n");
    out.append(throw_sig.as_str());
    out.append(";\n");
    if plan.with_method.is_some() {
        out.append(with_sig.as_str());
        out.append(";\n");
    }
    out.append("}\n");
    assert(out@ =~= decl_spec(*g, plan@, throw_sig@, with_sig@));
    out
}

fn impl_text(
    g: &Generics,
    plan: &ThrowsPlan,
    source_ty: &String,
    throw_sig: &String,
    with_sig: &String,
    names: &String,
    ctor: &String,
) -> (out: String)
    ensures
        out@ == impl_spec(*g, plan@, source_ty@, throw_sig@, with_sig@, names@, ctor@),
{
    let mut out = String::new();
    out.append("impl");
    out.append(impl_generics(g, Some("__RETURN")).as_str());
    out.append(" ");
    out.append(plan.trait_name.as_str());
    out.append(ty_generics(g, Some("__RETURN")).as_str());
    out.append(" for Result<__RETURN, ");
    out.append(source_ty.as_str());
    out.append(">");
    out.append(no_where(g).as_str());
    out.append(" {\n");
    out.append(throw_sig.as_str());
    out.append(" {\nself.map_err(|e| ");
    out.append(ctor.as_str());
    out.append(")\n}\n");
    if plan.with_method.is_some() {
        out.append(with_sig.as_str());
        out.append(" {\nself.map_err(|e| {\nlet ");
        out.append(names.as_str());
        out.append(" = f();\n");
        out.append(ctor.as_str());
        out.append("\n})\n}\n");
    }
    out.append("}\n");
    assert(out@ =~= impl_spec(*g, plan@, source_ty@, throw_sig@, with_sig@, names@, ctor@));
    out
}

fn throws_text(ident: &String, g: &Generics, r: &Record, variant: Option<&String>, plan: &ThrowsPlan) -> (out: String)
    requires
        plan.source < r.fields@.len(),
        forall|i: int| 0 <= i < plan.extra@.len() ==> #[trigger] plan.extra@[i] < r.fields@.len(),
    ensures
        out@ == throws_spec(ident@, *g, r.fields@, opt_string_view(variant), plan@),
{
    let fs = &r.fields;
    let ctor = ctor_expr_text(ident, r, variant, plan);
    let (throw_sig, with_sig) = signatures(ident, g, fs, plan);
    let names = supplied(fs, plan, 1);
    let mut out = decl_text(g, plan, &throw_sig, &with_sig);
    out.append(impl_text(g, plan, &fs[plan.source].ty.text, &throw_sig, &with_sig, &names, &ctor).as_str());
    out
}

/// The number of records among `vs[..n]` that have a conversion source.
pub open spec fn count_from(vs: Seq<Record>, n: int) -> nat
    decreases n,
{
    if n <= 0 {
        0
    } else {
        count_from(vs, n - 1) + if from_index(vs[n - 1].fields@) is Some { 1nat } else { 0 }
    }
}

/// The number of records among `vs[..n]` that have a causal field.
pub open spec fn count_source(vs: Seq<Record>, n: int) -> nat
    decreases n,
{
    if n <= 0 {
        0
    } else {
        count_source(vs, n - 1) + if source_index(vs[n - 1].fields@) is Some { 1nat } else { 0 }
    }
}

/// The bounds that the error interface needs on `Self` when the type has
/// type parameters: its supertraits.
pub open spec fn self_obligations(g: Generics) -> Seq<(Seq<char>, Capability)> {
    if type_param_names(g.params@).len() > 0 {
        seq![("Self"@, Capability::Debug), ("Self"@, Capability::Display)]
    } else {
        seq![]
    }
}

/// `bs` without repeats, in order of first occurrence.
pub open spec fn dedup(bs: Seq<(Seq<char>, Capability)>) -> Seq<(Seq<char>, Capability)> {
    insert_all_spec(seq![], bs, bs.len() as int)
}

/// `acc` with the obligations of `more` added, without repeats.
pub open spec fn merge(acc: Seq<(Seq<char>, Capability)>, more: Seq<(Seq<char>, Capability)>) -> Seq<
    (Seq<char>, Capability),
> {
    insert_all_spec(acc, more, more.len() as int)
}

fn self_bounds(g: &Generics, bounds: &mut Vec<Bound>)
    ensures
        bounds_view(final(bounds)@) == merge(bounds_view(old(bounds)@), self_obligations(*g)),
{
    let names = type_params(&g.params);
    let ghost so = self_obligations(*g);
    assert(names_view(names@).len() == names@.len());
    if names.len() > 0 {
        insert_bound(bounds, Bound { subject: String::from_str("Self"), cap: Capability::Debug });
        insert_bound(bounds, Bound { subject: String::from_str("Self"), cap: Capability::Display });
        assert(so.drop_last() =~= seq![("Self"@, Capability::Debug)]);
        assert(insert_all_spec(bounds_view(old(bounds)@), so, 1) == insert_spec(
            insert_all_spec(bounds_view(old(bounds)@), so, 0),
            so[0],
        ));
    }
}

/// The obligations of a struct's error interface.
pub open spec fn struct_error_bounds(g: Generics, body: Record) -> Seq<(Seq<char>, Capability)> {
    merge(dedup(error_obligation(body, type_param_names(g.params@))), self_obligations(g))
}

/// The methods of a struct's error interface.
pub open spec fn struct_methods(body: Record) -> Seq<char> {
    let sp = source_plan_of(body);
    (if sp != SourcePlan::Nothing {
        source_method_text(struct_source_text(body.fields@, sp))
    } else {
        seq![]
    }) + (match provide_plan_of(body) {
        Some(pp) => provide_method_text(provide_text(body.fields@, pp, true)),
        None => seq![],
    })
}

pub open spec fn adapter_text(needed: bool) -> Seq<char> {
    if needed {
        "use thiserror::__private::AsDisplay as _;\n"@
    } else {
        seq![]
    }
}

/// The body of a struct's formatting method.
pub open spec fn struct_display_body(body: Record) -> Seq<char> {
    let fs = body.fields@;
    match display_plan_of(body, false) {
        DisplayPlanV::Forward => if fs.len() > 0 {
            "::core::fmt::Display::fmt(&self."@ + member_text(fs[0].member) + ", __formatter)"@
        } else {
            seq![]
        },
        DisplayPlanV::Template(ps) => adapter_text(needs_adapter(ps, fs))
            + "#[allow(unused_variables, deprecated)]\nlet Self "@ + fields_pat_text(fs) + " = self;\n"@
            + template_text(ps, fs),
        DisplayPlanV::Nothing => seq![],
    }
}

/// A struct's formatting implementation, when it displays.
pub open spec fn struct_display(ident: Seq<char>, g: Generics, body: Record) -> Option<Seq<char>> {
    if display_plan_of(body, false) == DisplayPlanV::Nothing {
        None
    } else {
        Some(
            display_impl_spec(
                ident,
                g,
                dedup(display_obligation(body, false, type_param_names(g.params@))),
                struct_display_body(body),
            ),
        )
    }
}

pub open spec fn opt_text(v: Option<String>) -> Option<Seq<char>> {
    match v {
        Some(x) => Some(x@),
        None => None,
    }
}

/// The conversion constructor of a struct, if it has one.
pub open spec fn struct_from_texts(ident: Seq<char>, g: Generics, body: Record) -> Seq<Seq<char>> {
    match from_plan_of(body) {
        Some(fp) => seq![from_impl_spec(ident, g, body.fields@, None, fp)],
        None => seq![],
    }
}

/// The throw-builder capability of a struct, if it has a causal field.
pub open spec fn struct_throws_texts(ident: Seq<char>, g: Generics, body: Record) -> Seq<Seq<char>> {
    match source_index(body.fields@) {
        Some(s) => seq![throws_spec(ident, g, body.fields@, None, builder_of(""@, ident, body, s))],
        None => seq![],
    }
}

/// The declarations generated for a struct.
fn impl_struct(ident: &String, g: &Generics, body: &Record) -> (e: Expansion)
    ensures
        e.error_impl@ == error_impl_spec(ident@, *g, struct_error_bounds(*g, *body), struct_methods(*body)),
        opt_text(e.display_impl) == struct_display(ident@, *g, *body),
        e.display_impl is Some <==> display_plan_of(*body, false) != DisplayPlanV::Nothing,
        e.from_impls@.len() == (if from_plan_of(*body) is Some { 1int } else { 0 }),
        names_view(e.from_impls@) == struct_from_texts(ident@, *g, *body),
        names_view(e.throws@) == struct_throws_texts(ident@, *g, *body),
        e.throws@.len() == (if source_index(body.fields@) is Some { 1int } else { 0 }),
        e.conversions@ == seq![from_plan_of(*body)],
        e.builders@.len() == 1,
        e.builders@[0] is Some <==> source_index(body.fields@) is Some,
        e.builders@[0] matches Some(t) ==> throws_plan_spec(""@, ident@, *body, t),
        e.causes@ == seq![source_plan_of(*body)],
        e.traces@ == seq![provide_plan_of(*body)],
{
    let names = type_params(&g.params);
    let mut error_bounds: Vec<Bound> = Vec::new();
    assert(bounds_view(error_bounds@) =~= Seq::<(Seq<char>, Capability)>::empty());
    insert_all(&mut error_bounds, &error_bounds_of(body, &names));
    self_bounds(g, &mut error_bounds);
    let mut methods = String::new();
    let sp = source_plan(body);
    if sp != SourcePlan::Nothing {
        methods.append(source_method(&struct_source_body(body, sp)).as_str());
    }
    let trace = provide_plan(body);
    if let Some(pp) = trace {
        methods.append(provide_method(&provide_body(body, pp, true)).as_str());
    }
    assert(methods@ =~= struct_methods(*body));
    let error_impl = error_impl_text(ident, g, &error_bounds, &methods);

    let display_impl = match display_plan(body, false) {
        DisplayPlan::Nothing => None,
        DisplayPlan::Forward => {
            let mut d: Vec<Bound> = Vec::new();
            assert(bounds_view(d@) =~= Seq::<(Seq<char>, Capability)>::empty());
            insert_all(&mut d, &display_bounds_of(body, false, &names));
            let mut b = String::new();
            if body.fields.len() > 0 {
                b.append("::core::fmt::Display::fmt(&self.");
                push_member(&mut b, &body.fields[0].member);
                b.append(", __formatter)");
            }
            assert(b@ =~= struct_display_body(*body));
            Some(display_impl_text(ident, g, &d, &b))
        },
        DisplayPlan::Template { pieces } => {
            let mut d: Vec<Bound> = Vec::new();
            assert(bounds_view(d@) =~= Seq::<(Seq<char>, Capability)>::empty());
            insert_all(&mut d, &display_bounds_of(body, false, &names));
            let (render, bonus) = template_body(&body.fields, &pieces);
            let mut b = use_as_display(bonus);
            assert(b@ =~= adapter_text(bonus));
            b.append("#[allow(unused_variables, deprecated)]\nlet Self ");
            b.append(fields_pat(&body.fields).as_str());
            b.append(" = self;\n");
            b.append(render.as_str());
            assert(b@ =~= struct_display_body(*body));
            Some(display_impl_text(ident, g, &d, &b))
        },
    };

    let mut from_impls: Vec<String> = Vec::new();
    let fp = from_plan(body);
    if let Some(p) = fp {
        from_impls.push(from_impl_text(ident, g, body, None, p));
    }
    let mut throws: Vec<String> = Vec::new();
    let tp = throws_plan("", ident.as_str(), body);
    if let Some(p) = &tp {
        throws.push(throws_text(ident, g, body, None, p));
    }
    assert(names_view(from_impls@) =~= struct_from_texts(ident@, *g, *body));
    assert(names_view(throws@) =~= struct_throws_texts(ident@, *g, *body));
    let conversions = vec![fp];
    let builders = vec![tp];
    let causes = vec![sp];
    let traces = vec![trace];
    Expansion { error_impl, display_impl, from_impls, throws, conversions, builders, causes, traces }
}

/// The arm of the cause lookup for variant `v`.
pub open spec fn source_arm_text(ident: Seq<char>, v: Record) -> Seq<char> {
    let fs = v.fields@;
    ctor_text(ident, Some(v.ident@)) + match source_plan_of(v) {
        SourcePlan::Transparent => if fs.len() > 0 {
            " {"@ + member_text(fs[0].member)
                + ": transparent} => std::error::Error::source(transparent.as_dyn_error()),\n"@
        } else {
            seq![]
        },
        SourcePlan::Field { index, optional } => if index < fs.len() {
            " {"@ + member_text(fs[index as int].member) + ": source, ..} => ::core::option::Option::Some(source"@
                + (if optional { ".as_ref()?"@ } else { seq![] }) + ".as_dyn_error()),\n"@
        } else {
            seq![]
        },
        SourcePlan::Nothing => " {..} => ::core::option::Option::None,\n"@,
    }
}

/// The arm of the cause lookup for one variant.
fn enum_source_arm(ident: &String, v: &Record) -> (s: String)
    ensures
        s@ == source_arm_text(ident@, *v),
{
    let mut s = ctor_path(ident, Some(&v.ident));
    match source_plan(v) {
        SourcePlan::Transparent => {
            if v.fields.len() > 0 {
                s.append(" {");
                push_member(&mut s, &v.fields[0].member);
                s.append(": transparent} => std::error::Error::source(transparent.as_dyn_error()),\n");
            }
        },
        SourcePlan::Field { index, optional } => {
            if index < v.fields.len() {
                s.append(" {");
                push_member(&mut s, &v.fields[index].member);
                s.append(": source, ..} => ::core::option::Option::Some(source");
                if optional {
                    s.append(".as_ref()?");
                }
                s.append(".as_dyn_error()),\n");
            }
        },
        SourcePlan::Nothing => {
            s.append(" {..} => ::core::option::Option::None,\n");
        },
    }
    assert(s@ =~= source_arm_text(ident@, *v));
    s
}

/// The arm of the trace provision for variant `v`.
pub open spec fn provide_arm_text(ident: Seq<char>, v: Record) -> Seq<char> {
    let fs = v.fields@;
    ctor_text(ident, Some(v.ident@)) + match provide_plan_of(v) {
        None => " {..} => {}\n"@,
        Some(pp) => " {"@ + (match pp.offer {
            Some((b, _)) => if b < fs.len() {
                member_text(fs[b as int].member) + ": backtrace, "@
            } else {
                seq![]
            },
            None => seq![],
        }) + (match pp.forward {
            Some((k, _)) => if k < fs.len() {
                member_text(fs[k as int].member) + ": source, "@
            } else {
                seq![]
            },
            None => seq![],
        }) + "..} => {\n"@ + provide_text(fs, pp, false) + "}\n"@,
    }
}

/// The arm of the trace provision for one variant.
fn enum_provide_arm(ident: &String, v: &Record) -> (s: String)
    ensures
        s@ == provide_arm_text(ident@, *v),
{
    let mut s = ctor_path(ident, Some(&v.ident));
    match provide_plan(v) {
        None => {
            s.append(" {..} => {}\n");
        },
        Some(pp) => {
            s.append(" {");
            if let Some((b, _)) = pp.offer {
                if b < v.fields.len() {
                    push_member(&mut s, &v.fields[b].member);
                    s.append(": backtrace, ");
                }
            }
            if let Some((k, _)) = pp.forward {
                if k < v.fields.len() {
                    push_member(&mut s, &v.fields[k].member);
                    s.append(": source, ");
                }
            }
            s.append("..} => {\n");
            s.append(provide_body(v, pp, false).as_str());
            s.append("}\n");
        },
    }
    assert(s@ =~= provide_arm_text(ident@, *v));
    s
}

/// The arm of the formatting method for variant `v` of a union that displays.
pub open spec fn display_arm_text(ident: Seq<char>, v: Record) -> Seq<char> {
    let fs = v.fields@;
    ctor_text(ident, Some(v.ident@)) + " "@ + fields_pat_text(fs) + " => "@ + (match display_plan_of(v, true) {
        DisplayPlanV::Forward => if fs.len() > 0 {
            "::core::fmt::Display::fmt("@ + binding_text(fs[0].member) + ", __formatter)"@
        } else {
            seq![]
        },
        DisplayPlanV::Template(ps) => "{\n"@ + template_text(ps, fs) + "\n}"@,
        DisplayPlanV::Nothing => "::core::result::Result::Ok(())"@,
    }) + ",\n"@
}

/// Whether the formatting of variant `v` goes through the bonus adapter.
pub open spec fn variant_uses_adapter(v: Record) -> bool {
    match display_plan_of(v, true) {
        DisplayPlanV::Template(ps) => needs_adapter(ps, v.fields@),
        _ => false,
    }
}

fn enum_display_arm(ident: &String, v: &Record) -> (r: (String, bool))
    ensures
        r.0@ == display_arm_text(ident@, *v),
        r.1 == variant_uses_adapter(*v),
{
    let mut arms = String::new();
    let mut bonus = false;
    arms.append(ctor_path(ident, Some(&v.ident)).as_str());
    arms.append(" ");
    arms.append(fields_pat(&v.fields).as_str());
    arms.append(" => ");
    match display_plan(v, true) {
        DisplayPlan::Forward => {
            if v.fields.len() > 0 {
                arms.append("::core::fmt::Display::fmt(");
                push_binding(&mut arms, &v.fields[0].member);
                arms.append(", __formatter)");
            }
        },
        DisplayPlan::Template { pieces } => {
            let (render, b) = template_body(&v.fields, &pieces);
            bonus = b;
            arms.append("{\n");
            arms.append(render.as_str());
            arms.append("\n}");
        },
        DisplayPlan::Nothing => {
            arms.append("::core::result::Result::Ok(())");
        },
    }
    arms.append(",\n");
    assert(arms@ =~= display_arm_text(ident@, *v));
    (arms, bonus)
}

/// The arms of kind `kind` (0: cause lookup, 1: trace provision, 2:
/// formatting) for the variants `vs[..n]`.
pub open spec fn arms_text(ident: Seq<char>, vs: Seq<Record>, n: int, kind: int) -> Seq<char>
    decreases n,
{
    if n <= 0 {
        seq![]
    } else {
        arms_text(ident, vs, n - 1, kind) + if kind == 0 {
            source_arm_text(ident, vs[n - 1])
        } else if kind == 1 {
            provide_arm_text(ident, vs[n - 1])
        } else {
            display_arm_text(ident, vs[n - 1])
        }
    }
}

/// The obligations of the cause lookups (`display` false) or of the
/// formatting (`display` true) of the variants `vs[..n]`, without repeats.
pub open spec fn fold_bounds(vs: Seq<Record>, names: Seq<Seq<char>>, n: int, display: bool) -> Seq<
    (Seq<char>, Capability),
>
    decreases n,
{
    if n <= 0 {
        seq![]
    } else {
        merge(
            fold_bounds(vs, names, n - 1, display),
            if display {
                display_obligation(vs[n - 1], true, names)
            } else {
                error_obligation(vs[n - 1], names)
            },
        )
    }
}

pub open spec fn any_source(vs: Seq<Record>, n: int) -> bool {
    exists|k: int| 0 <= k < n && #[trigger] source_plan_of(vs[k]) != SourcePlan::Nothing
}

pub open spec fn any_trace(vs: Seq<Record>, n: int) -> bool {
    exists|k: int| 0 <= k < n && #[trigger] provide_plan_of(vs[k]) is Some
}

pub open spec fn any_adapter(vs: Seq<Record>, n: int) -> bool {
    exists|k: int| 0 <= k < n && #[trigger] variant_uses_adapter(vs[k])
}

/// The methods of a union's error interface.
pub open spec fn enum_methods(ident: Seq<char>, vs: Seq<Record>) -> Seq<char> {
    let n = vs.len() as int;
    (if any_source(vs, n) {
        source_method_text("#[allow(deprecated)]\nmatch self {\n"@ + arms_text(ident, vs, n, 0) + "}"@)
    } else {
        seq![]
    }) + (if any_trace(vs, n) {
        provide_method_text("#[allow(deprecated)]\nmatch self {\n"@ + arms_text(ident, vs, n, 1) + "}\n"@)
    } else {
        seq![]
    })
}

/// A union's formatting implementation, when it displays.
pub open spec fn enum_display(ident: Seq<char>, g: Generics, vs: Seq<Record>) -> Option<Seq<char>> {
    let n = vs.len() as int;
    if enum_has_display(vs) {
        Some(
            display_impl_spec(
                ident,
                g,
                fold_bounds(vs, type_param_names(g.params@), n, true),
                adapter_text(any_adapter(vs, n))
                    + "#[allow(unused_variables, deprecated, clippy::used_underscore_binding)]\nmatch "@
                    + (if n == 0 { "*"@ } else { seq![] }) + "self {\n"@ + arms_text(ident, vs, n, 2) + "}"@,
            ),
        )
    } else {
        None
    }
}

/// The conversion constructors of the variants `vs[..n]`.
pub open spec fn enum_from_texts(ident: Seq<char>, g: Generics, vs: Seq<Record>, n: int) -> Seq<Seq<char>>
    decreases n,
{
    if n <= 0 {
        seq![]
    } else {
        enum_from_texts(ident, g, vs, n - 1) + match from_plan_of(vs[n - 1]) {
            Some(fp) => seq![from_impl_spec(ident, g, vs[n - 1].fields@, Some(vs[n - 1].ident@), fp)],
            None => seq![],
        }
    }
}

/// The throw-builder capabilities of the variants `vs[..n]`.
pub open spec fn enum_throws_texts(ident: Seq<char>, g: Generics, vs: Seq<Record>, n: int) -> Seq<Seq<char>>
    decreases n,
{
    if n <= 0 {
        seq![]
    } else {
        enum_throws_texts(ident, g, vs, n - 1) + match source_index(vs[n - 1].fields@) {
            Some(s) => seq![
                throws_spec(
                    ident,
                    g,
                    vs[n - 1].fields@,
                    Some(vs[n - 1].ident@),
                    builder_of(ident, vs[n - 1].ident@, vs[n - 1], s),
                ),
            ],
            None => seq![],
        }
    }
}

/// The declarations generated for a tagged union.
fn impl_enum(ident: &String, g: &Generics, vs: &Vec<Record>) -> (e: Expansion)
    ensures
        e.error_impl@ == error_impl_spec(
            ident@,
            *g,
            merge(fold_bounds(vs@, type_param_names(g.params@), vs@.len() as int, false), self_obligations(*g)),
            enum_methods(ident@, vs@),
        ),
        opt_text(e.display_impl) == enum_display(ident@, *g, vs@),
        e.display_impl is Some <==> enum_has_display(vs@),
        names_view(e.from_impls@) == enum_from_texts(ident@, *g, vs@, vs@.len() as int),
        names_view(e.throws@) == enum_throws_texts(ident@, *g, vs@, vs@.len() as int),
        e.from_impls@.len() == count_from(vs@, vs@.len() as int),
        e.throws@.len() == count_source(vs@, vs@.len() as int),
        e.conversions@.len() == vs@.len(),
        e.builders@.len() == vs@.len(),
        forall|k: int| 0 <= k < vs@.len() ==> #[trigger] e.conversions@[k] == from_plan_of(vs@[k]),
        forall|k: int|
            0 <= k < vs@.len() ==> (#[trigger] e.builders@[k] is Some <==> source_index(vs@[k].fields@) is Some),
        forall|k: int|
            0 <= k < vs@.len() ==> (#[trigger] e.builders@[k] matches Some(t) ==> throws_plan_spec(
                ident@,
                vs@[k].ident@,
                vs@[k],
                t,
            )),
        e.causes@.len() == vs@.len(),
        e.traces@.len() == vs@.len(),
        forall|k: int| 0 <= k < vs@.len() ==> #[trigger] e.causes@[k] == source_plan_of(vs@[k]),
        forall|k: int| 0 <= k < vs@.len() ==> #[trigger] e.traces@[k] == provide_plan_of(vs@[k]),
{
    let names = type_params(&g.params);
    let ghost tp = type_param_names(g.params@);
    let mut error_bounds: Vec<Bound> = Vec::new();
    assert(bounds_view(error_bounds@) =~= Seq::<(Seq<char>, Capability)>::empty());
    let mut source_arms = String::new();
    let mut provide_arms = String::new();
    let mut any_src = false;
    let mut any_bt = false;
    let mut causes: Vec<SourcePlan> = Vec::new();
    let mut traces: Vec<Option<ProvidePlan>> = Vec::new();
    let mut i: usize = 0;
    while i < vs.len()
        invariant
            i <= vs.len(),
            names_view(names@) == tp,
            tp == type_param_names(g.params@),
            bounds_view(error_bounds@) == fold_bounds(vs@, tp, i as int, false),
            source_arms@ == arms_text(ident@, vs@, i as int, 0),
            provide_arms@ == arms_text(ident@, vs@, i as int, 1),
            any_src == any_source(vs@, i as int),
            any_bt == any_trace(vs@, i as int),
            causes@.len() == i,
            traces@.len() == i,
            forall|k: int| 0 <= k < i ==> #[trigger] causes@[k] == source_plan_of(vs@[k]),
            forall|k: int| 0 <= k < i ==> #[trigger] traces@[k] == provide_plan_of(vs@[k]),
        decreases vs.len() - i,
    {
        let v = &vs[i];
        insert_all(&mut error_bounds, &error_bounds_of(v, &names));
        let sp = source_plan(v);
        if sp != SourcePlan::Nothing {
            any_src = true;
        }
        let trace = provide_plan(v);
        if trace.is_some() {
            any_bt = true;
        }
        causes.push(sp);
        traces.push(trace);
        source_arms.append(enum_source_arm(ident, v).as_str());
        provide_arms.append(enum_provide_arm(ident, v).as_str());
        i += 1;
        assert(any_src == any_source(vs@, i as int)) by {
            if source_plan_of(vs@[i - 1]) != SourcePlan::Nothing {
                assert(any_source(vs@, i as int));
            }
        }
        assert(any_bt == any_trace(vs@, i as int)) by {
            if provide_plan_of(vs@[i - 1]) is Some {
                assert(any_trace(vs@, i as int));
            }
        }
    }
    self_bounds(g, &mut error_bounds);
    let mut methods = String::new();
    if any_src {
        let mut b = String::from_str("#[allow(deprecated)]\nmatch self {\n");
        b.append(source_arms.as_str());
        b.append("}");
        methods.append(source_method(&b).as_str());
    }
    if any_bt {
        let mut b = String::from_str("#[allow(deprecated)]\nmatch self {\n");
        b.append(provide_arms.as_str());
        b.append("}\n");
        methods.append(provide_method(&b).as_str());
    }
    assert(methods@ =~= enum_methods(ident@, vs@));
    let error_impl = error_impl_text(ident, g, &error_bounds, &methods);

    let display_impl = if has_display(vs) {
        let mut d: Vec<Bound> = Vec::new();
        assert(bounds_view(d@) =~= Seq::<(Seq<char>, Capability)>::empty());
        let mut arms = String::new();
        let mut bonus = false;
        let mut k: usize = 0;
        while k < vs.len()
            invariant
                k <= vs.len(),
                names_view(names@) == tp,
                bounds_view(d@) == fold_bounds(vs@, tp, k as int, true),
                arms@ == arms_text(ident@, vs@, k as int, 2),
                bonus == any_adapter(vs@, k as int),
            decreases vs.len() - k,
        {
            let v = &vs[k];
            insert_all(&mut d, &display_bounds_of(v, true, &names));
            let (arm, b) = enum_display_arm(ident, v);
            arms.append(arm.as_str());
            if b {
                bonus = true;
            }
            k += 1;
            assert(bonus == any_adapter(vs@, k as int)) by {
                if variant_uses_adapter(vs@[k - 1]) {
                    assert(any_adapter(vs@, k as int));
                }
            }
        }
        let mut b = use_as_display(bonus);
        b.append("#[allow(unused_variables, deprecated, clippy::used_underscore_binding)]\nmatch ");
        if vs.len() == 0 {
            b.append("*");
        }
        b.append("self {\n");
        b.append(arms.as_str());
        b.append("}");
        assert(b@ =~= adapter_text(any_adapter(vs@, vs@.len() as int))
            + "#[allow(unused_variables, deprecated, clippy::used_underscore_binding)]\nmatch "@
            + (if vs@.len() == 0 { "*"@ } else { seq![] }) + "self {\n"@
            + arms_text(ident@, vs@, vs@.len() as int, 2) + "}"@);
        Some(display_impl_text(ident, g, &d, &b))
    } else {
        None
    };

    let mut from_impls: Vec<String> = Vec::new();
    let mut throws: Vec<String> = Vec::new();
    let mut conversions: Vec<Option<FromPlan>> = Vec::new();
    let mut builders: Vec<Option<ThrowsPlan>> = Vec::new();
    let mut j: usize = 0;
    while j < vs.len()
        invariant
            j <= vs.len(),
            names_view(from_impls@) == enum_from_texts(ident@, *g, vs@, j as int),
            names_view(throws@) == enum_throws_texts(ident@, *g, vs@, j as int),
            from_impls@.len() == count_from(vs@, j as int),
            throws@.len() == count_source(vs@, j as int),
            conversions@.len() == j,
            builders@.len() == j,
            forall|k: int| 0 <= k < j ==> #[trigger] conversions@[k] == from_plan_of(vs@[k]),
            forall|k: int|
                0 <= k < j ==> (#[trigger] builders@[k] is Some <==> source_index(vs@[k].fields@) is Some),
            forall|k: int|
                0 <= k < j ==> (#[trigger] builders@[k] matches Some(t) ==> throws_plan_spec(
                    ident@,
                    vs@[k].ident@,
                    vs@[k],
                    t,
                )),
        decreases vs.len() - j,
    {
        let v = &vs[j];
        let fp = from_plan(v);
        if let Some(p) = fp {
            from_impls.push(from_impl_text(ident, g, v, Some(&v.ident), p));
        }
        assert(names_view(from_impls@) =~= enum_from_texts(ident@, *g, vs@, j + 1));
        let tp = throws_plan(ident.as_str(), v.ident.as_str(), v);
        if let Some(p) = &tp {
            throws.push(throws_text(ident, g, v, Some(&v.ident), p));
        }
        assert(names_view(throws@) =~= enum_throws_texts(ident@, *g, vs@, j + 1));
        conversions.push(fp);
        builders.push(tp);
        j += 1;
    }
    Expansion { error_impl, display_impl, from_impls, throws, conversions, builders, causes, traces }
}

/// What the expansion of a valid `input` consists of: the text of each
/// generated declaration, as a function of the definition alone.
pub open spec fn expansion_matches(input: Input, e: Expansion) -> bool {
    let ident = input.ident@;
    let g = input.generics;
    match input.shape {
        Shape::Struct { body } => {
            &&& e.error_impl@ == error_impl_spec(ident, g, struct_error_bounds(g, body), struct_methods(body))
            &&& opt_text(e.display_impl) == struct_display(ident, g, body)
            &&& names_view(e.from_impls@) == struct_from_texts(ident, g, body)
            &&& names_view(e.throws@) == struct_throws_texts(ident, g, body)
        },
        Shape::Enum { variants } => {
            let vs = variants@;
            &&& e.error_impl@ == error_impl_spec(
                ident,
                g,
                merge(fold_bounds(vs, type_param_names(g.params@), vs.len() as int, false), self_obligations(g)),
                enum_methods(ident, vs),
            )
            &&& opt_text(e.display_impl) == enum_display(ident, g, vs)
            &&& names_view(e.from_impls@) == enum_from_texts(ident, g, vs, vs.len() as int)
            &&& names_view(e.throws@) == enum_throws_texts(ident, g, vs, vs.len() as int)
        },
    }
}

/// The text of all declarations of `e`, in emitter order.
pub open spec fn expansion_text(e: Expansion) -> Seq<char> {
    e.error_impl@ + (match e.display_impl {
        Some(d) => d@,
        None => seq![],
    }) + concat_all(e.from_impls@, e.from_impls@.len() as int) + concat_all(e.throws@, e.throws@.len() as int)
}

/// Validates an annotated definition and generates its declarations; fails,
/// with nothing generated, on the first rule that the definition breaks.
pub fn derive(input: &Input) -> (r: Result<Expansion, ValidationError>)
    ensures
        r is Ok <==> valid_input(*input),
        r matches Err(e) ==> input_error(*input) == Some(e),
        r matches Ok(e) ==> expansion_matches(*input, e),
        r matches Ok(e) ==> match input.shape {
            Shape::Struct { body } => {
                &&& (e.display_impl is Some <==> display_plan_of(body, false) != DisplayPlanV::Nothing)
                &&& e.from_impls@.len() == (if from_plan_of(body) is Some { 1int } else { 0 })
                &&& e.throws@.len() == (if source_index(body.fields@) is Some { 1int } else { 0 })
                &&& e.conversions@ == seq![from_plan_of(body)]
                &&& e.builders@.len() == 1
                &&& (e.builders@[0] is Some <==> source_index(body.fields@) is Some)
                &&& e.builders@[0] matches Some(t) ==> throws_plan_spec(""@, input.ident@, body, t)
                &&& e.causes@ == seq![source_plan_of(body)]
                &&& e.traces@ == seq![provide_plan_of(body)]
            },
            Shape::Enum { variants } => {
                &&& (e.display_impl is Some <==> enum_has_display(variants@))
                &&& e.from_impls@.len() == count_from(variants@, variants@.len() as int)
                &&& e.throws@.len() == count_source(variants@, variants@.len() as int)
                &&& e.conversions@.len() == variants@.len()
                &&& e.builders@.len() == variants@.len()
                &&& forall|k: int|
                    0 <= k < variants@.len() ==> #[trigger] e.conversions@[k] == from_plan_of(variants@[k])
                &&& forall|k: int|
                    0 <= k < variants@.len() ==> (#[trigger] e.builders@[k] is Some
                        <==> source_index(variants@[k].fields@) is Some)
                &&& forall|k: int|
                    0 <= k < variants@.len() ==> (#[trigger] e.builders@[k] matches Some(t)
                        ==> throws_plan_spec(input.ident@, variants@[k].ident@, variants@[k], t))
                &&& e.causes@.len() == variants@.len()
                &&& e.traces@.len() == variants@.len()
                &&& forall|k: int|
                    0 <= k < variants@.len() ==> #[trigger] e.causes@[k] == source_plan_of(variants@[k])
                &&& forall|k: int|
                    0 <= k < variants@.len() ==> #[trigger] e.traces@[k] == provide_plan_of(variants@[k])
            },
        },
{
    match validate(input) {
        Err(e) => Err(e),
        Ok(()) => match &input.shape {
            Shape::Struct { body } => Ok(impl_struct(&input.ident, &input.generics, body)),
            Shape::Enum { variants } => Ok(impl_enum(&input.ident, &input.generics, variants)),
        },
    }
}

proof fn lemma_concat_all_views(a: Seq<String>, b: Seq<String>, n: int)
    requires
        names_view(a) == names_view(b),
        n <= a.len(),
    ensures
        concat_all(a, n) == concat_all(b, n),
    decreases n,
{
    assert(names_view(a).len() == a.len());
    assert(names_view(b).len() == b.len());
    if n > 0 {
        lemma_concat_all_views(a, b, n - 1);
        assert(names_view(a)[n - 1] == a[n - 1]@);
        assert(names_view(b)[n - 1] == b[n - 1]@);
    }
}

/// Expanding the same definition twice gives the same text, byte for byte.
pub proof fn lemma_expansion_deterministic(input: Input, e1: Expansion, e2: Expansion)
    requires
        expansion_matches(input, e1),
        expansion_matches(input, e2),
    ensures
        expansion_text(e1) == expansion_text(e2),
{
    assert(names_view(e1.from_impls@).len() == e1.from_impls@.len());
    assert(names_view(e2.from_impls@).len() == e2.from_impls@.len());
    assert(names_view(e1.throws@).len() == e1.throws@.len());
    assert(names_view(e2.throws@).len() == e2.throws@.len());
    lemma_concat_all_views(e1.from_impls@, e2.from_impls@, e1.from_impls@.len() as int);
    lemma_concat_all_views(e1.throws@, e2.throws@, e1.throws@.len() as int);
    assert(opt_text(e1.display_impl) == opt_text(e2.display_impl));
}

} // verus!
