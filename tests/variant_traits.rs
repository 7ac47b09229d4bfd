use error_expand::emit::Expansion;
use error_expand::model::{Field, GenericParam, Generics, Input, Member, Record, Shape};
use error_expand::plan::{throws_plan, ThrowsPlan};
use error_expand::render::render_template;
use error_expand::ty::{Segment, Ty, TyKind};

fn path_ty(name: &str) -> Ty {
    let mut segments = Vec::new();
    for part in name.split("::") {
        segments.push(Segment { ident: part.to_string(), args: vec![] });
    }
    Ty { text: name.to_string(), kind: TyKind::Path { segments } }
}

fn named(name: &str, ty: &str) -> Field {
    Field {
        member: Member::Named { name: name.to_string() },
        ty: path_ty(ty),
        source_tag: false,
        from_tag: false,
        backtrace_tag: false,
    }
}

fn unnamed(index: usize, ty: &str) -> Field {
    Field {
        member: Member::Unnamed { index },
        ty: path_ty(ty),
        source_tag: false,
        from_tag: false,
        backtrace_tag: false,
    }
}

fn tagged_source(mut f: Field) -> Field {
    f.source_tag = true;
    f
}

fn record(ident: &str, fields: Vec<Field>, display: Option<&str>) -> Record {
    Record {
        ident: ident.to_string(),
        fields,
        transparent: false,
        display: display.map(|d| d.to_string()),
    }
}

fn generics(names: &[&str]) -> Generics {
    Generics {
        params: names
            .iter()
            .map(|n| GenericParam { name: n.to_string(), decl: n.to_string(), is_type: true })
            .collect(),
        predicates: vec![],
    }
}

fn expand(input: &Input) -> Expansion {
    match error_expand::emit::derive(input) {
        Ok(e) => e,
        Err(e) => panic!("validation failed: {:?}", e),
    }
}

fn plan(prefix: &str, ident: &str, r: &Record) -> ThrowsPlan {
    throws_plan(prefix, ident, r).expect("a causal field")
}

fn invalid_io_error() -> Input {
    Input {
        ident: "InvalidIoError".to_string(),
        generics: generics(&[]),
        shape: Shape::Struct {
            body: record(
                "InvalidIoError",
                vec![named("msg", "String"), named("value", "i32"), named("source", "io::Error")],
                Some("basic error msg: {msg}"),
            ),
        },
    }
}

#[test]
fn test_struct_error() {
    let input = invalid_io_error();
    let e = expand(&input);
    assert_eq!(e.throws.len(), 1);
    let t = &e.throws[0];
    assert!(t.contains("trait InvalidIoErrorThrows<__RETURN>"));
    assert!(t.contains("fn throw_invalid_io(self, msg: String, value: i32) -> Result<__RETURN, InvalidIoError>"));
    assert!(t.contains("fn throw_invalid_io_with<F: FnOnce() -> (String, i32)>(self, f: F)"));
    assert!(t.contains("for Result<__RETURN, io::Error>"));
    assert!(t.contains("InvalidIoError { source: e, msg, value }"));
    if let Shape::Struct { body } = &input.shape {
        let p = plan("", "InvalidIoError", body);
        assert_eq!(p.throw_method, "throw_invalid_io");
        assert_eq!(p.with_method.as_deref(), Some("throw_invalid_io_with"));
        assert_eq!(p.extra, vec![0, 1]);
        let shown = render_template(
            "basic error msg: {msg}",
            &body.fields,
            &vec!["some msg".to_string(), "32".to_string(), "io".to_string()],
        );
        assert_eq!(shown.as_deref(), Some("basic error msg: some msg"));
    }
    assert!(e.error_impl.contains("::core::option::Option::Some(self.source.as_dyn_error())"));
    let d = e.display_impl.expect("a display");
    assert!(d.contains("let Self { msg, value, source } = self;"));
    assert!(d.contains("basic error msg: {__display_msg}"));
}

fn enum_error() -> Input {
    Input {
        ident: "EnumError".to_string(),
        generics: generics(&[]),
        shape: Shape::Enum {
            variants: vec![
                record(
                    "InvalidMsg",
                    vec![named("msg", "String"), named("value", "i32"), named("source", "io::Error")],
                    Some("basic error msg: {msg}"),
                ),
                record(
                    "AnotherError",
                    vec![tagged_source(unnamed(0, "ParseIntError")), unnamed(1, "String")],
                    Some("another error: {1}"),
                ),
            ],
        },
    }
}

#[test]
fn test_basic_enum() {
    let input = enum_error();
    let e = expand(&input);
    assert_eq!(e.throws.len(), 2);
    assert!(e.throws[0].contains("trait EnumErrorInvalidMsgThrows<__RETURN>"));
    assert!(e.throws[0].contains("fn throw_invalid_msg(self, msg: String, value: i32) -> Result<__RETURN, EnumError>"));
    assert!(e.throws[0].contains("fn throw_invalid_msg_with<F: FnOnce() -> (String, i32)>(self, f: F)"));
    assert!(e.throws[0].contains("EnumError::InvalidMsg { source: e, msg, value }"));
    assert!(e.throws[1].contains("trait EnumErrorAnotherErrorThrows<__RETURN>"));
    assert!(e.throws[1].contains("fn throw_another(self, _0: String) -> Result<__RETURN, EnumError>"));
    assert!(e.throws[1].contains("fn throw_another_with<F: FnOnce() -> String>(self, f: F)"));
    assert!(e.throws[1].contains("for Result<__RETURN, ParseIntError>"));
    assert!(e.throws[1].contains("EnumError::AnotherError(e, _0)"));
    let d = e.display_impl.as_ref().expect("a display");
    assert!(d.contains("EnumError::AnotherError (_0, _1) => {\nlet __display__1 = _1.as_display();\n::core::write!(__formatter, \"another error: {__display__1}\")"));
    assert!(d.contains("let __display_msg = msg.as_display();\n::core::write!(__formatter, \"basic error msg: {__display_msg}\")"));
    if let Shape::Enum { variants } = &input.shape {
        let shown = render_template(
            "another error: {1}",
            &variants[1].fields,
            &vec!["parse".to_string(), "another error".to_string()],
        );
        assert_eq!(shown.as_deref(), Some("another error: another error"));
        let shown = render_template(
            "basic error msg: {msg}",
            &variants[0].fields,
            &vec!["some msg".to_string(), "32".to_string(), "io".to_string()],
        );
        assert_eq!(shown.as_deref(), Some("basic error msg: some msg"));
    }
}

fn generic_struct_error() -> Input {
    Input {
        ident: "GenericStructError".to_string(),
        generics: generics(&["T"]),
        shape: Shape::Struct {
            body: record(
                "GenericStructError",
                vec![
                    named("msg", "String"),
                    named("value", "i32"),
                    named("source", "io::Error"),
                    named("generic", "T"),
                ],
                Some("basic error msg: {msg}"),
            ),
        },
    }
}

#[test]
fn test_generic_struct_error() {
    let e = expand(&generic_struct_error());
    let t = &e.throws[0];
    assert!(t.contains("trait GenericStructErrorThrows<T, __RETURN>"));
    assert!(t.contains(
        "fn throw_generic_struct(self, msg: String, value: i32, generic: T) -> Result<__RETURN, GenericStructError<T>>"
    ));
    assert!(t.contains("fn throw_generic_struct_with<F: FnOnce() -> (String, i32, T)>(self, f: F)"));
    assert!(t.contains("impl<T, __RETURN> GenericStructErrorThrows<T, __RETURN> for Result<__RETURN, io::Error>"));
    assert!(e.error_impl.contains("Self: ::core::fmt::Debug, Self: ::core::fmt::Display,"));
    assert!(!e.error_impl.contains("T: "));
    let d = e.display_impl.expect("a display");
    assert!(!d.contains("T: "));
    let shown = render_template(
        "basic error msg: {msg}",
        &vec![named("msg", "String")],
        &vec!["some msg".to_string()],
    );
    assert_eq!(shown.as_deref(), Some("basic error msg: some msg"));
    assert_ne!(shown.as_deref(), Some("basic error msg: generic arg"));
}

fn generic_enum_error() -> Input {
    Input {
        ident: "GenericEnumError".to_string(),
        generics: generics(&["T", "S"]),
        shape: Shape::Enum {
            variants: vec![
                record(
                    "Variant1",
                    vec![named("msg", "T"), named("source", "io::Error")],
                    Some("basic error msg: {msg}"),
                ),
                record(
                    "Variant2",
                    vec![tagged_source(unnamed(0, "ParseIntError")), unnamed(1, "S")],
                    Some("another error: {1}"),
                ),
            ],
        },
    }
}

#[test]
fn test_generic_enum() {
    let e = expand(&generic_enum_error());
    assert!(e.throws[0].contains("fn throw_variant1(self, msg: T) -> Result<__RETURN, GenericEnumError<T, S>>"));
    assert!(e.throws[0].contains("fn throw_variant1_with<F: FnOnce() -> T>(self, f: F)"));
    assert!(e.throws[1].contains("fn throw_variant2(self, _0: S) -> Result<__RETURN, GenericEnumError<T, S>>"));
    assert!(e.throws[1].contains("fn throw_variant2_with<F: FnOnce() -> S>(self, f: F)"));
    assert!(e.throws[1].contains("GenericEnumError::Variant2(e, _0)"));
    let d = e.display_impl.expect("a display");
    assert!(d.contains("T: ::core::fmt::Display"));
    assert!(d.contains("GenericEnumError::Variant2 (_0, _1) => {\nlet __display__1 = _1.as_display();\n::core::write!(__formatter, \"another error: {__display__1}\")"));
    assert!(d.contains("S: ::core::fmt::Display"));
    let shown = render_template(
        "another error: {1}",
        &vec![tagged_source(unnamed(0, "ParseIntError")), unnamed(1, "S")],
        &vec!["bad digit".to_string(), "123".to_string()],
    );
    assert_eq!(shown.as_deref(), Some("another error: 123"));
}
