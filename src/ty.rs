//! A model of the declared types of fields, as far as the expansion reads them.
use vstd::prelude::*;

verus! {

broadcast use vstd::std_specs::vec::axiom_vec_index_decreases;

/// A declared type: its source text, and its shape where the expansion
/// looks inside it.
pub struct Ty {
    pub text: String,
    pub kind: TyKind,
}

/// Paths (`a::b::C<X, Y>`, without a qualified self) are kept as a tree of
/// segments; every other shape is opaque.
pub enum TyKind {
    Path { segments: Vec<Segment> },
    Other,
}

/// One segment of a path: an identifier and its angle-bracketed arguments.
pub struct Segment {
    pub ident: String,
    pub args: Vec<GenericArg>,
}

/// One angle-bracketed argument: a type, or anything else (a lifetime, a
/// constant, an associated binding).
pub enum GenericArg {
    Type { ty: Ty },
    Other,
}

pub open spec fn option_word() -> Seq<char> {
    seq!['O', 'p', 't', 'i', 'o', 'n']
}

/// The argument `X` when `t` is written `...::Option<X>` with a single type
/// argument.
pub open spec fn option_arg(t: Ty) -> Option<Ty> {
    match t.kind {
        TyKind::Path { segments } => {
            if segments@.len() > 0 && segments@.last().ident@ == option_word()
                && segments@.last().args@.len() == 1 {
                match segments@.last().args@[0] {
                    GenericArg::Type { ty } => Some(ty),
                    GenericArg::Other => None,
                }
            } else {
                None
            }
        },
        TyKind::Other => None,
    }
}

/// `t` with one `Option` wrapper removed, if it has one.
pub open spec fn unoptional(t: Ty) -> Ty {
    match option_arg(t) {
        Some(a) => a,
        None => t,
    }
}

/// Whether `t` mentions one of `names` as a type parameter: a path whose first
/// segment is one of them with no arguments, or a type argument that does.
pub open spec fn mentions(t: Ty, names: Seq<Seq<char>>) -> bool
    decreases t,
{
    match t.kind {
        TyKind::Path { segments } => {
            (segments@.len() > 0 && segments@[0].args@.len() == 0 && names.contains(
                segments@[0].ident@,
            )) || exists|i: int, j: int|
                #![trigger segments@[i].args@[j]]
                0 <= i < segments@.len() && 0 <= j < segments@[i].args@.len() && match segments@[i].args@[j] {
                    GenericArg::Type { ty } => mentions(ty, names),
                    GenericArg::Other => false,
                }
        },
        TyKind::Other => false,
    }
}

/// The views of a list of names.
pub open spec fn names_view(v: Seq<String>) -> Seq<Seq<char>> {
    v.map_values(|s: String| s@)
}

pub fn str_eq(a: &str, b: &str) -> (r: bool)
    ensures
        r == (a@ == b@),
{
    let n = a.unicode_len();
    if n != b.unicode_len() {
        return false;
    }
    let mut i: usize = 0;
    while i < n
        invariant
            n == a@.len() == b@.len(),
            i <= n,
            a@.subrange(0, i as int) == b@.subrange(0, i as int),
        decreases n - i,
    {
        if a.get_char(i) != b.get_char(i) {
            assert(a@[i as int] != b@[i as int]);
            return false;
        }
        assert(a@.subrange(0, i + 1) =~= a@.subrange(0, i as int).push(a@[i as int]));
        assert(b@.subrange(0, i + 1) =~= b@.subrange(0, i as int).push(b@[i as int]));
        i += 1;
    }
    assert(a@ =~= a@.subrange(0, n as int));
    assert(b@ =~= b@.subrange(0, n as int));
    true
}

/// The argument of an `Option<X>` type, or `None` when `ty` is no such type.
pub fn type_parameter_of_option(ty: &Ty) -> (r: Option<&Ty>)
    ensures
        match r {
            Some(a) => option_arg(*ty) == Some(*a),
            None => option_arg(*ty) is None,
        },
{
    match &ty.kind {
        TyKind::Path { segments } => {
            if segments.len() == 0 {
                return None;
            }
            let last = &segments[segments.len() - 1];
            proof {
                reveal_strlit("Option");
            }
            let is_opt = str_eq(last.ident.as_str(), "Option");
            assert(last == segments@.last());
            assert("Option"@ == option_word());
            if !is_opt {
                assert(last.ident@ != option_word());
                return None;
            }
            if last.args.len() != 1 {
                return None;
            }
            match &last.args[0] {
                GenericArg::Type { ty } => Some(ty),
                GenericArg::Other => None,
            }
        },
        TyKind::Other => None,
    }
}

pub fn type_is_option(ty: &Ty) -> (r: bool)
    ensures
        r == (option_arg(*ty) is Some),
{
    type_parameter_of_option(ty).is_some()
}

/// `ty` with one `Option` wrapper removed, if it has one.
pub fn unoptional_type(ty: &Ty) -> (r: &Ty)
    ensures
        *r == unoptional(*ty),
{
    match type_parameter_of_option(ty) {
        Some(a) => a,
        None => ty,
    }
}

fn contains_name(names: &Vec<String>, s: &String) -> (r: bool)
    ensures
        r == names_view(names@).contains(s@),
{
    let mut i: usize = 0;
    while i < names.len()
        invariant
            i <= names.len(),
            forall|k: int| 0 <= k < i ==> names@[k]@ != s@,
        decreases names.len() - i,
    {
        if str_eq(names[i].as_str(), s.as_str()) {
            assert(names_view(names@)[i as int] == s@);
            return true;
        }
        i += 1;
    }
    assert forall|k: int| 0 <= k < names_view(names@).len() implies names_view(names@)[k] != s@ by {
        assert(names_view(names@)[k] == names@[k]@);
    }
    false
}

/// Whether `ty` mentions one of the type parameters `names`.
pub fn contains_generic(ty: &Ty, names: &Vec<String>) -> (r: bool)
    ensures
        r == mentions(*ty, names_view(names@)),
    decreases ty,
{
    match &ty.kind {
        TyKind::Path { segments } => {
            if segments.len() > 0 && segments[0].args.len() == 0 && contains_name(
                names,
                &segments[0].ident,
            ) {
                return true;
            }
            let mut i: usize = 0;
            while i < segments.len()
                invariant
                    i <= segments.len(),
                    ty.kind == (TyKind::Path { segments: *segments }),
                    forall|a: int, b: int|
                        #![trigger segments@[a].args@[b]]
                        0 <= a < i && 0 <= b < segments@[a].args@.len() ==> !match segments@[a].args@[b] {
                            GenericArg::Type { ty } => mentions(ty, names_view(names@)),
                            GenericArg::Other => false,
                        },
                decreases segments.len() - i,
            {
                let args = &segments[i].args;
                let mut j: usize = 0;
                while j < args.len()
                    invariant
                        i < segments.len(),
                        j <= args.len(),
                        *args == segments@[i as int].args,
                        ty.kind == (TyKind::Path { segments: *segments }),
                        forall|a: int, b: int|
                            #![trigger segments@[a].args@[b]]
                            0 <= a < i && 0 <= b < segments@[a].args@.len() ==> !match segments@[a].args@[b] {
                                GenericArg::Type { ty } => mentions(ty, names_view(names@)),
                                GenericArg::Other => false,
                            },
                        forall|b: int|
                            #![trigger segments@[i as int].args@[b]]
                            0 <= b < j ==> !match segments@[i as int].args@[b] {
                                GenericArg::Type { ty } => mentions(ty, names_view(names@)),
                                GenericArg::Other => false,
                            },
                    decreases args.len() - j,
                {
                    match &args[j] {
                        GenericArg::Type { ty: inner } => {
                            proof {
                                let seg = segments[i as int];
                                assert(decreases_to!(*ty => ty.kind));
                                assert(ty.kind->segments == *segments);
                                assert(decreases_to!(ty.kind => ty.kind->segments));
                                assert(decreases_to!(*segments => seg));
                                assert(decreases_to!(seg => seg.args));
                                assert(decreases_to!(seg.args[j as int] => *inner));
                                assert(decreases_to!(seg.args => seg.args[j as int]));
                                assert(decreases_to!(*ty => *inner));
                            }
                            if contains_generic(inner, names) {
                                return true;
                            }
                        },
                        GenericArg::Other => {},
                    }
                    j += 1;
                }
                i += 1;
            }
            false
        },
        TyKind::Other => false,
    }
}

} // verus!
