use error_expand::bounds::{display_bounds_of, error_bounds_of, Capability};
use error_expand::emit::Expansion;
use error_expand::model::{Field, GenericParam, Generics, Input, Member, Record, Shape};
use error_expand::naming::{base_name_from_flags, method_base_name, snake_from_flags};
use error_expand::plan::{
    display_plan, from_plan, provide_plan, source_plan, throws_plan, DisplayPlan, ProvidePlan,
    SourcePlan,
};
use error_expand::render::render_template;
use error_expand::template::parse_template_text;
use error_expand::ty::{type_is_option, type_parameter_of_option, unoptional_type, GenericArg, Segment, Ty, TyKind};
use error_expand::validate::{ErrorKind, ValidationError};

fn seg(ident: &str, args: Vec<GenericArg>) -> Segment {
    Segment { ident: ident.to_string(), args }
}

fn simple(name: &str) -> Ty {
    Ty { text: name.to_string(), kind: TyKind::Path { segments: vec![seg(name, vec![])] } }
}

fn option_of(inner: Ty) -> Ty {
    Ty {
        text: format!("Option<{}>", inner.text),
        kind: TyKind::Path { segments: vec![seg("Option", vec![GenericArg::Type { ty: inner }])] },
    }
}

fn field(member: Member, ty: Ty) -> Field {
    Field { member, ty, source_tag: false, from_tag: false, backtrace_tag: false }
}

fn named(name: &str, ty: Ty) -> Field {
    field(Member::Named { name: name.to_string() }, ty)
}

fn unnamed(index: usize, ty: Ty) -> Field {
    field(Member::Unnamed { index }, ty)
}

fn rec(ident: &str, fields: Vec<Field>, display: Option<&str>) -> Record {
    Record { ident: ident.to_string(), fields, transparent: false, display: display.map(String::from) }
}

fn no_generics() -> Generics {
    Generics { params: vec![], predicates: vec![] }
}

fn type_generics(names: &[&str]) -> Generics {
    Generics {
        params: names
            .iter()
            .map(|n| GenericParam { name: n.to_string(), decl: n.to_string(), is_type: true })
            .collect(),
        predicates: vec![],
    }
}

fn struct_input(ident: &str, g: Generics, body: Record) -> Input {
    Input { ident: ident.to_string(), generics: g, shape: Shape::Struct { body } }
}

fn run(input: &Input) -> Result<Expansion, ValidationError> {
    error_expand::emit::derive(input)
}

fn kind_of(input: &Input) -> ErrorKind {
    match run(input) {
        Err(e) => e.kind,
        Ok(_) => panic!("expected a validation failure"),
    }
}

#[test]
fn two_causal_fields_are_rejected() {
    let mut a = named("a", simple("io::Error"));
    a.source_tag = true;
    let mut b = named("b", simple("fmt::Error"));
    b.source_tag = true;
    let input = struct_input("TwoCauses", no_generics(), rec("TwoCauses", vec![a, b], Some("x")));
    let err = run(&input).err().expect("rejected");
    assert_eq!(err, ValidationError { kind: ErrorKind::ConflictingSource, variant: None, field: Some(1), piece: None });
}

#[test]
fn source_and_from_on_different_fields_conflict() {
    let mut a = named("a", simple("io::Error"));
    a.from_tag = true;
    let mut b = named("b", simple("fmt::Error"));
    b.source_tag = true;
    let input = struct_input("E", no_generics(), rec("E", vec![a, b], None));
    assert_eq!(kind_of(&input), ErrorKind::ConflictingSource);
}

#[test]
fn two_backtrace_fields_are_rejected() {
    let mut a = named("a", simple("Backtrace"));
    a.backtrace_tag = true;
    let mut b = named("b", simple("Backtrace"));
    b.backtrace_tag = true;
    let input = struct_input("E", no_generics(), rec("E", vec![a, b], Some("x")));
    assert_eq!(kind_of(&input), ErrorKind::ConflictingBacktrace);
}

#[test]
fn transparency_needs_exactly_one_field() {
    let mut r = rec("E", vec![named("a", simple("A")), named("b", simple("B"))], None);
    r.transparent = true;
    assert_eq!(kind_of(&struct_input("E", no_generics(), r)), ErrorKind::TransparentFieldCount);
    let mut r = rec("E", vec![unnamed(0, simple("A"))], Some("x"));
    r.transparent = true;
    assert_eq!(kind_of(&struct_input("E", no_generics(), r)), ErrorKind::TransparentWithDisplay);
}

#[test]
fn conversion_source_beside_other_fields_is_rejected() {
    let mut a = named("source", simple("io::Error"));
    a.from_tag = true;
    let input = struct_input("E", no_generics(), rec("E", vec![a, named("msg", simple("String"))], Some("x")));
    assert_eq!(kind_of(&input), ErrorKind::FromWithExtraFields);
}

#[test]
fn malformed_and_dangling_templates_are_rejected() {
    let fields = || vec![named("msg", simple("String"))];
    for t in ["{msg", "}", "{}", "{msg{x}}", "{-}"] {
        let input = struct_input("E", no_generics(), rec("E", fields(), Some(t)));
        assert_eq!(kind_of(&input), ErrorKind::MalformedTemplate, "template {}", t);
    }
    for t in ["{nope}", "{0}"] {
        let input = struct_input("E", no_generics(), rec("E", fields(), Some(t)));
        assert_eq!(kind_of(&input), ErrorKind::DanglingReference, "template {}", t);
    }
    let input = struct_input("E", no_generics(), rec("E", fields(), Some("{{msg}} {msg:?}")));
    assert!(run(&input).is_ok());
}

#[test]
fn variant_without_display_is_located() {
    let input = Input {
        ident: "E".to_string(),
        generics: no_generics(),
        shape: Shape::Enum {
            variants: vec![
                rec("A", vec![], Some("a")),
                rec("B", vec![unnamed(0, simple("X"))], None),
                rec("C", vec![unnamed(0, simple("X")), unnamed(1, simple("Y"))], None),
            ],
        },
    };
    let err = run(&input).err().expect("rejected");
    assert_eq!(err, ValidationError { kind: ErrorKind::MissingDisplay, variant: Some(2), field: None, piece: None });
}

#[test]
fn enum_without_any_display_has_no_display_impl() {
    let input = Input {
        ident: "E".to_string(),
        generics: no_generics(),
        shape: Shape::Enum { variants: vec![rec("C", vec![unnamed(0, simple("X")), unnamed(1, simple("Y"))], None)] },
    };
    let e = run(&input).ok().expect("accepted");
    assert!(e.display_impl.is_none());
}

#[test]
fn empty_enum_displays_through_a_dereference() {
    let input = Input {
        ident: "Never".to_string(),
        generics: no_generics(),
        shape: Shape::Enum { variants: vec![] },
    };
    let e = run(&input).ok().expect("accepted");
    assert!(e.display_impl.expect("display").contains("match *self {\n}"));
    assert!(e.error_impl.contains("std::error::Error for Never"));
}

#[test]
fn transparent_record_forwards_display_and_cause() {
    let mut r = rec("Wrapper", vec![unnamed(0, simple("ErrKind"))], None);
    r.transparent = true;
    assert_eq!(source_plan(&r), SourcePlan::Transparent);
    assert!(matches!(display_plan(&r, false), DisplayPlan::Forward));
    let e = run(&struct_input("Wrapper", no_generics(), r)).ok().expect("accepted");
    assert!(e.error_impl.contains("std::error::Error::source(self.0.as_dyn_error())"));
    let d = e.display_impl.expect("display");
    assert!(d.contains("::core::fmt::Display::fmt(&self.0, __formatter)"));
}

#[test]
fn conversion_sets_cause_and_captures_trace() {
    let mut src = named("source", simple("io::Error"));
    src.from_tag = true;
    let bt = named("backtrace", simple("Backtrace"));
    let r = rec("E", vec![src, bt], Some("io"));
    let p = from_plan(&r).expect("a conversion");
    assert_eq!(p.from, 0);
    assert!(!p.wrap_some);
    assert_eq!(p.backtrace, Some((1, false)));
    let e = run(&struct_input("E", no_generics(), r)).ok().expect("accepted");
    assert_eq!(e.from_impls.len(), 1);
    let f = &e.from_impls[0];
    assert!(f.contains("::core::convert::From<io::Error> for E"));
    assert!(f.contains("source: source, "));
    assert!(f.contains("backtrace: ::core::convert::From::from(std::backtrace::Backtrace::capture()), "));
}

#[test]
fn optional_conversion_source_is_wrapped() {
    let mut src = named("cause", option_of(simple("io::Error")));
    src.from_tag = true;
    let r = rec("E", vec![src], Some("io"));
    let p = from_plan(&r).expect("a conversion");
    assert!(p.wrap_some);
    assert_eq!(p.backtrace, None);
    assert_eq!(source_plan(&r), SourcePlan::Field { index: 0, optional: true });
    let e = run(&struct_input("E", no_generics(), r)).ok().expect("accepted");
    assert!(e.from_impls[0].contains("From<io::Error>"));
    assert!(e.from_impls[0].contains("cause: ::core::option::Option::Some(source)"));
    assert!(e.error_impl.contains("::core::option::Option::Some(self.cause.as_ref()?.as_dyn_error())"));
}

#[test]
fn trace_request_goes_to_cause_then_stored_trace() {
    let src = named("source", simple("io::Error"));
    let mut bt = named("trace", simple("Backtrace"));
    bt.backtrace_tag = true;
    let r = rec("E", vec![src, bt], Some("io"));
    assert_eq!(provide_plan(&r), Some(ProvidePlan { forward: Some((0, false)), offer: Some((1, false)) }));
    let e = run(&struct_input("E", no_generics(), r)).ok().expect("accepted");
    let forward = e.error_impl.find("self.source.thiserror_provide(request);").expect("forward");
    let offer = e.error_impl.find("request.provide_ref::<std::backtrace::Backtrace>(&self.trace);").expect("offer");
    assert!(forward < offer);
}

#[test]
fn trace_on_the_cause_itself_is_only_forwarded() {
    let mut src = named("source", simple("Inner"));
    src.backtrace_tag = true;
    let r = rec("E", vec![src], Some("x"));
    assert_eq!(provide_plan(&r), Some(ProvidePlan { forward: Some((0, false)), offer: None }));
}

#[test]
fn builder_names_follow_the_identifier() {
    assert_eq!(method_base_name("InvalidIoError"), "invalid_io");
    assert_eq!(method_base_name("FooErrorError"), "foo_error");
    assert_eq!(method_base_name("IoErrorError"), "io_error");
    assert_eq!(method_base_name("Variant2"), "variant2");
    assert_eq!(method_base_name("Error"), "error");
    assert_eq!(method_base_name("HTTPError"), "h_t_t_p");
    assert_eq!(method_base_name("already_snake"), "already_snake");
}

#[test]
fn deferred_builder_only_with_extra_fields() {
    let mut only = unnamed(0, simple("TryFromIntError"));
    only.source_tag = true;
    let r = rec("OnlySource", vec![only], Some("x"));
    let p = throws_plan("E", "OnlySource", &r).expect("a cause");
    assert_eq!(p.trait_name, "EOnlySourceThrows");
    assert_eq!(p.throw_method, "throw_only_source");
    assert!(p.with_method.is_none());
    assert!(p.extra.is_empty());
    let plain = rec("NoCause", vec![named("msg", simple("String"))], Some("x"));
    assert!(throws_plan("", "NoCause", &plain).is_none());
}

#[test]
fn bounds_only_on_read_generic_fields() {
    let names = vec!["T".to_string(), "U".to_string()];
    let r = rec(
        "E",
        vec![named("msg", simple("String")), named("source", simple("io::Error")), named("extra", simple("T"))],
        Some("basic: {msg}"),
    );
    assert!(error_bounds_of(&r, &names).is_empty());
    assert!(display_bounds_of(&r, false, &names).is_empty());

    let r = rec("E", vec![named("source", option_of(simple("T"))), named("u", simple("U"))], Some("{u:?}"));
    let eb = error_bounds_of(&r, &names);
    assert_eq!(eb.len(), 1);
    assert_eq!(eb[0].subject, "T");
    assert_eq!(eb[0].cap, Capability::ErrorStatic);
    let db = display_bounds_of(&r, false, &names);
    assert_eq!(db.len(), 1);
    assert_eq!(db[0].subject, "U");
    assert_eq!(db[0].cap, Capability::Debug);

    let mut t = rec("E", vec![unnamed(0, simple("T"))], None);
    t.transparent = true;
    let eb = error_bounds_of(&t, &names);
    assert_eq!(eb.len(), 1);
    assert_eq!(eb[0].cap, Capability::Error);
    let db = display_bounds_of(&t, false, &names);
    assert_eq!(db[0].cap, Capability::Display);
}

#[test]
fn generic_record_without_reads_gets_only_self_bounds() {
    let input = struct_input(
        "G",
        type_generics(&["T"]),
        rec(
            "G",
            vec![
                named("msg", simple("String")),
                named("value", simple("i32")),
                named("source", simple("InnerErr")),
                named("generic", simple("T")),
            ],
            Some("m {msg}"),
        ),
    );
    let e = run(&input).ok().expect("accepted");
    assert!(e.error_impl.contains(" where Self: ::core::fmt::Debug, Self: ::core::fmt::Display, "));
    assert!(!e.error_impl.contains("T: "));
    assert!(!e.display_impl.expect("display").contains(" where "));
}

#[test]
fn expansion_is_deterministic() {
    let make = || {
        struct_input(
            "E",
            type_generics(&["T"]),
            rec("E", vec![named("source", simple("T")), named("v", simple("T"))], Some("{v} {v:?}")),
        )
    };
    let a = run(&make()).ok().expect("accepted").text();
    let b = run(&make()).ok().expect("accepted").text();
    assert_eq!(a, b);
    assert!(a.contains("T: std::error::Error + 'static"));
}

#[test]
fn interpolation_by_name_or_position_renders_the_value() {
    let named_fields = vec![named("msg", simple("String"))];
    let vals = vec!["hello".to_string()];
    assert_eq!(render_template("{msg}", &named_fields, &vals).as_deref(), Some("hello"));
    let tuple_fields = vec![unnamed(0, simple("String"))];
    assert_eq!(render_template("{0}", &tuple_fields, &vals).as_deref(), Some("hello"));
    assert_eq!(render_template("{{{0}}}", &tuple_fields, &vals).as_deref(), Some("{hello}"));
    assert_eq!(render_template("{0", &tuple_fields, &vals), None);
}

#[test]
fn template_pieces() {
    let p = parse_template_text("a{b:?}{{").expect("well formed");
    assert_eq!(p.len(), 3);
    assert!(parse_template_text("{1234567890}").is_none());
    assert!(parse_template_text("{123}").is_some());
}

#[test]
fn option_types_are_recognised() {
    let opt = option_of(simple("Inner"));
    assert!(type_is_option(&opt));
    assert_eq!(type_parameter_of_option(&opt).map(|t| t.text.clone()), Some("Inner".to_string()));
    assert_eq!(unoptional_type(&opt).text, "Inner");
    let plain = simple("Inner");
    assert!(!type_is_option(&plain));
    assert_eq!(unoptional_type(&plain).text, "Inner");
    let lifetime_arg = Ty {
        text: "Option<'a>".to_string(),
        kind: TyKind::Path { segments: vec![seg("Option", vec![GenericArg::Other])] },
    };
    assert!(!type_is_option(&lifetime_arg));
    let vec_ty = Ty {
        text: "Vec<u8>".to_string(),
        kind: TyKind::Path { segments: vec![seg("Vec", vec![GenericArg::Type { ty: simple("u8") }])] },
    };
    assert!(!type_is_option(&vec_ty));
    let qualified = Ty {
        text: "std::option::Option<u8>".to_string(),
        kind: TyKind::Path {
            segments: vec![seg("std", vec![]), seg("option", vec![]), seg("Option", vec![GenericArg::Type { ty: simple("u8") }])],
        },
    };
    assert!(type_is_option(&qualified));
}

#[test]
fn trace_tag_needs_a_trace_type() {
    let mut bt = named("trace", simple("String"));
    bt.backtrace_tag = true;
    let input = struct_input("E", no_generics(), rec("E", vec![named("source", simple("io::Error")), bt], Some("x")));
    assert_eq!(kind_of(&input), ErrorKind::BacktraceType);

    let mut bt = named("trace", option_of(simple("Backtrace")));
    bt.backtrace_tag = true;
    let r = rec("E", vec![named("source", simple("io::Error")), bt], Some("x"));
    assert_eq!(provide_plan(&r), Some(ProvidePlan { forward: Some((0, false)), offer: Some((1, true)) }));
    let e = run(&struct_input("E", no_generics(), r)).ok().expect("accepted");
    assert!(e.error_impl.contains(
        "if let ::core::option::Option::Some(backtrace) = &self.trace { request.provide_ref::<std::backtrace::Backtrace>(backtrace); }"
    ));

    let mut src = named("source", simple("Inner"));
    src.backtrace_tag = true;
    let input = struct_input("E", no_generics(), rec("E", vec![src], Some("x")));
    assert!(run(&input).is_ok());
}

#[test]
fn failures_point_at_the_offending_field_or_piece() {
    let mut a = named("a", simple("Backtrace"));
    a.backtrace_tag = true;
    let mut b = named("b", simple("Backtrace"));
    b.backtrace_tag = true;
    let input = struct_input("E", no_generics(), rec("E", vec![named("x", simple("X")), a, named("y", simple("Y")), b], Some("x")));
    let err = run(&input).err().expect("rejected");
    assert_eq!(err, ValidationError { kind: ErrorKind::ConflictingBacktrace, variant: None, field: Some(3), piece: None });

    let input = struct_input("E", no_generics(), rec("E", vec![named("msg", simple("String"))], Some("ab {msg} {nope}")));
    let err = run(&input).err().expect("rejected");
    assert_eq!(err, ValidationError { kind: ErrorKind::DanglingReference, variant: None, field: None, piece: Some(5) });

    let mut bt = named("trace", simple("String"));
    bt.backtrace_tag = true;
    let input = struct_input("E", no_generics(), rec("E", vec![named("source", simple("io::Error")), bt], Some("x")));
    assert_eq!(run(&input).err().expect("rejected").field, Some(1));

    let mut src = named("source", simple("io::Error"));
    src.from_tag = true;
    let input = struct_input("E", no_generics(), rec("E", vec![named("msg", simple("String")), src], Some("x")));
    assert_eq!(run(&input).err().expect("rejected").field, Some(1));

    let input = Input {
        ident: "E".to_string(),
        generics: no_generics(),
        shape: Shape::Enum {
            variants: vec![
                rec("A", vec![unnamed(0, simple("X"))], Some("{0}")),
                rec("B", vec![unnamed(0, simple("X"))], Some("b {1}")),
            ],
        },
    };
    let err = run(&input).err().expect("rejected");
    assert_eq!(err, ValidationError { kind: ErrorKind::DanglingReference, variant: Some(1), field: None, piece: Some(2) });
}

#[test]
fn numeric_formats_bound_generic_fields() {
    let names = vec!["T".to_string()];
    let cases = [
        ("{t:x}", Capability::LowerHex),
        ("{t:#X}", Capability::UpperHex),
        ("{t:o}", Capability::Octal),
        ("{t:08b}", Capability::Binary),
        ("{t:e}", Capability::LowerExp),
        ("{t:E}", Capability::UpperExp),
    ];
    for (template, cap) in cases {
        let r = rec("E", vec![named("t", simple("T"))], Some(template));
        let db = display_bounds_of(&r, false, &names);
        assert_eq!(db.len(), 1, "template {}", template);
        assert_eq!(db[0].subject, "T");
        assert_eq!(db[0].cap, cap);
    }
    let r = rec("E", vec![named("t", simple("T"))], Some("{t:p}"));
    assert!(display_bounds_of(&r, false, &names).is_empty());
    let input = struct_input("E", type_generics(&["T"]), rec("E", vec![named("t", simple("T"))], Some("{t:x}")));
    let d = run(&input).ok().expect("accepted").display_impl.expect("display");
    assert!(d.contains(" where T: ::core::fmt::LowerHex, "));
    assert!(d.contains("::core::write!(__formatter, \"{t:x}\")"));
}

#[test]
fn snake_case_from_uppercase_flags() {
    let flags = |s: &str| s.chars().map(|c| c.is_uppercase()).collect::<Vec<bool>>();
    assert_eq!(snake_from_flags("InvalidIoError", &flags("InvalidIoError")), "invalid_io_error");
    assert_eq!(base_name_from_flags("InvalidIoError", &flags("InvalidIoError")), "invalid_io");
    assert_eq!(snake_from_flags("AbC", &vec![true, false, false]), "abc");
    assert_eq!(snake_from_flags("abc", &vec![false, true, true]), "a_b_c");
    assert_eq!(base_name_from_flags("XError", &vec![true, true, false, false, false, false]), "x");
    assert_eq!(base_name_from_flags("ÉtatError", &flags("ÉtatError")), "État");
}
