//! The validated model of one annotated type definition, and the roles that
//! its fields play.
use vstd::prelude::*;
use crate::ty::{Ty, TyKind, str_eq};

verus! {

/// How a field is addressed: by name, or by position in a tuple shape.
pub enum Member {
    Named { name: String },
    Unnamed { index: usize },
}

/// One field of a record or variant, with the role tags written on it.
pub struct Field {
    pub member: Member,
    pub ty: Ty,
    /// Tagged as the causal error.
    pub source_tag: bool,
    /// Tagged as the conversion source (and so the causal error).
    pub from_tag: bool,
    /// Tagged as holding a captured trace.
    pub backtrace_tag: bool,
}

/// The shared view of a struct body or of one enum variant.
pub struct Record {
    pub ident: String,
    pub fields: Vec<Field>,
    pub transparent: bool,
    /// The literal display template, when one is written.
    pub display: Option<String>,
}

/// One generic parameter: the name used in type position (`T`, `'a`, `N`),
/// its declaration with bounds (`T: Clone`, `const N: usize`), and whether it
/// is a type parameter.
pub struct GenericParam {
    pub name: String,
    pub decl: String,
    pub is_type: bool,
}

pub struct Generics {
    pub params: Vec<GenericParam>,
    /// The predicates of the written `where` clause, as source text.
    pub predicates: Vec<String>,
}

pub enum Shape {
    Struct { body: Record },
    Enum { variants: Vec<Record> },
}

/// One annotated type definition.
pub struct Input {
    pub ident: String,
    pub generics: Generics,
    pub shape: Shape,
}

pub open spec fn source_word() -> Seq<char> {
    seq!['s', 'o', 'u', 'r', 'c', 'e']
}

pub open spec fn backtrace_word() -> Seq<char> {
    seq!['B', 'a', 'c', 'k', 't', 'r', 'a', 'c', 'e']
}

pub open spec fn same_member(a: Member, b: Member) -> bool {
    match (a, b) {
        (Member::Named { name: x }, Member::Named { name: y }) => x@ == y@,
        (Member::Unnamed { index: i }, Member::Unnamed { index: j }) => i == j,
        _ => false,
    }
}

pub open spec fn causal_tag(f: Field) -> bool {
    f.source_tag || f.from_tag
}

pub open spec fn named_source(f: Field) -> bool {
    match f.member {
        Member::Named { name } => name@ == source_word(),
        Member::Unnamed { .. } => false,
    }
}

/// A path type whose last segment is `Backtrace` without arguments.
pub open spec fn is_backtrace_type(t: Ty) -> bool {
    match t.kind {
        TyKind::Path { segments } => segments@.len() > 0 && segments@.last().ident@
            == backtrace_word() && segments@.last().args@.len() == 0,
        TyKind::Other => false,
    }
}

/// The index of the first element of `s` that satisfies `p`.
pub open spec fn first_index(s: Seq<Field>, p: spec_fn(Field) -> bool) -> Option<int>
    decreases s.len(),
{
    if s.len() == 0 {
        None
    } else if p(s[0]) {
        Some(0)
    } else {
        match first_index(s.drop_first(), p) {
            Some(i) => Some(i + 1),
            None => None,
        }
    }
}

pub open spec fn or_else(a: Option<int>, b: Option<int>) -> Option<int> {
    if a is Some {
        a
    } else {
        b
    }
}

/// The causal field: the first one tagged as causal or as conversion source,
/// else the first one named `source`.
pub open spec fn source_index(fs: Seq<Field>) -> Option<int> {
    or_else(first_index(fs, |f: Field| causal_tag(f)), first_index(fs, |f: Field| named_source(f)))
}

/// The conversion source: the first field tagged as such.
pub open spec fn from_index(fs: Seq<Field>) -> Option<int> {
    first_index(fs, |f: Field| f.from_tag)
}

/// The trace field: the first one tagged as such, else the first whose type
/// is `Backtrace`.
pub open spec fn backtrace_index(fs: Seq<Field>) -> Option<int> {
    or_else(
        first_index(fs, |f: Field| f.backtrace_tag),
        first_index(fs, |f: Field| is_backtrace_type(f.ty)),
    )
}

/// The trace field, unless it is the conversion source itself.
pub open spec fn distinct_backtrace_index(fs: Seq<Field>) -> Option<int> {
    match backtrace_index(fs) {
        Some(b) => match from_index(fs) {
            Some(f) => if same_member(fs[f].member, fs[b].member) {
                None
            } else {
                Some(b)
            },
            None => Some(b),
        },
        None => None,
    }
}

pub proof fn lemma_first_index(s: Seq<Field>, p: spec_fn(Field) -> bool, i: int)
    requires
        0 <= i <= s.len(),
        forall|k: int| 0 <= k < i ==> !p(#[trigger] s[k]),
    ensures
        i < s.len() && p(s[i]) ==> first_index(s, p) == Some(i),
        i == s.len() ==> first_index(s, p) is None,
    decreases s.len(),
{
    if s.len() > 0 && i > 0 {
        assert forall|k: int| 0 <= k < i - 1 implies !p(#[trigger] s.drop_first()[k]) by {
            assert(s.drop_first()[k] == s[k + 1]);
        }
        lemma_first_index(s.drop_first(), p, i - 1);
    }
}

pub proof fn lemma_first_index_bounds(s: Seq<Field>, p: spec_fn(Field) -> bool)
    ensures
        match first_index(s, p) {
            Some(i) => 0 <= i < s.len() && p(s[i]),
            None => true,
        },
    decreases s.len(),
{
    if s.len() > 0 {
        lemma_first_index_bounds(s.drop_first(), p);
    }
}

pub fn member_eq(a: &Member, b: &Member) -> (r: bool)
    ensures
        r == same_member(*a, *b),
{
    match (a, b) {
        (Member::Named { name: x }, Member::Named { name: y }) => str_eq(x.as_str(), y.as_str()),
        (Member::Unnamed { index: i }, Member::Unnamed { index: j }) => *i == *j,
        _ => false,
    }
}

pub(crate) fn is_named_source(f: &Field) -> (r: bool)
    ensures
        r == named_source(*f),
{
    match &f.member {
        Member::Named { name } => {
            proof {
                reveal_strlit("source");
                assert("source"@ == source_word());
            }
            str_eq(name.as_str(), "source")
        },
        Member::Unnamed { .. } => false,
    }
}

pub(crate) fn is_backtrace_ty(t: &Ty) -> (r: bool)
    ensures
        r == is_backtrace_type(*t),
{
    match &t.kind {
        TyKind::Path { segments } => {
            if segments.len() == 0 {
                return false;
            }
            let last = &segments[segments.len() - 1];
            proof {
                reveal_strlit("Backtrace");
                assert("Backtrace"@ == backtrace_word());
                assert(*last == segments@.last());
            }
            str_eq(last.ident.as_str(), "Backtrace") && last.args.len() == 0
        },
        TyKind::Other => false,
    }
}

/// Which role predicate a scan looks for.
pub enum Role {
    Causal,
    NamedSource,
    From,
    BacktraceTag,
    BacktraceType,
}

pub open spec fn role_pred(role: Role) -> spec_fn(Field) -> bool {
    match role {
        Role::Causal => |f: Field| causal_tag(f),
        Role::NamedSource => |f: Field| named_source(f),
        Role::From => |f: Field| f.from_tag,
        Role::BacktraceTag => |f: Field| f.backtrace_tag,
        Role::BacktraceType => |f: Field| is_backtrace_type(f.ty),
    }
}

fn has_role(f: &Field, role: &Role) -> (r: bool)
    ensures
        r == role_pred(*role)(*f),
{
    match role {
        Role::Causal => f.source_tag || f.from_tag,
        Role::NamedSource => is_named_source(f),
        Role::From => f.from_tag,
        Role::BacktraceTag => f.backtrace_tag,
        Role::BacktraceType => is_backtrace_ty(&f.ty),
    }
}

/// The position of the first field that plays `role`.
pub fn find_role(fs: &Vec<Field>, role: Role) -> (r: Option<usize>)
    ensures
        r matches Some(i) ==> first_index(fs@, role_pred(role)) == Some(i as int),
        r is None ==> first_index(fs@, role_pred(role)) is None,
{
    let mut i: usize = 0;
    while i < fs.len()
        invariant
            i <= fs.len(),
            forall|k: int| 0 <= k < i ==> !role_pred(role)(#[trigger] fs@[k]),
        decreases fs.len() - i,
    {
        if has_role(&fs[i], &role) {
            proof {
                lemma_first_index(fs@, role_pred(role), i as int);
            }
            return Some(i);
        }
        i += 1;
    }
    proof {
        lemma_first_index(fs@, role_pred(role), i as int);
    }
    None
}

/// The position of the causal field.
pub fn source_field(fs: &Vec<Field>) -> (r: Option<usize>)
    ensures
        r matches Some(i) ==> source_index(fs@) == Some(i as int) && i < fs@.len(),
        r is None ==> source_index(fs@) is None,
{
    proof {
        lemma_first_index_bounds(fs@, role_pred(Role::Causal));
        lemma_first_index_bounds(fs@, role_pred(Role::NamedSource));
    }
    match find_role(fs, Role::Causal) {
        Some(i) => Some(i),
        None => find_role(fs, Role::NamedSource),
    }
}

/// The position of the conversion source.
pub fn from_field(fs: &Vec<Field>) -> (r: Option<usize>)
    ensures
        r matches Some(i) ==> from_index(fs@) == Some(i as int) && i < fs@.len(),
        r is None ==> from_index(fs@) is None,
{
    proof {
        lemma_first_index_bounds(fs@, role_pred(Role::From));
    }
    find_role(fs, Role::From)
}

/// The position of the trace field.
pub fn backtrace_field(fs: &Vec<Field>) -> (r: Option<usize>)
    ensures
        r matches Some(i) ==> backtrace_index(fs@) == Some(i as int) && i < fs@.len(),
        r is None ==> backtrace_index(fs@) is None,
{
    proof {
        lemma_first_index_bounds(fs@, role_pred(Role::BacktraceTag));
        lemma_first_index_bounds(fs@, role_pred(Role::BacktraceType));
    }
    match find_role(fs, Role::BacktraceTag) {
        Some(i) => Some(i),
        None => find_role(fs, Role::BacktraceType),
    }
}

/// The position of the trace field, unless it is the conversion source.
pub fn distinct_backtrace_field(fs: &Vec<Field>) -> (r: Option<usize>)
    ensures
        r matches Some(i) ==> distinct_backtrace_index(fs@) == Some(i as int) && i < fs@.len(),
        r is None ==> distinct_backtrace_index(fs@) is None,
{
    match backtrace_field(fs) {
        Some(b) => match from_field(fs) {
            Some(f) => if member_eq(&fs[f].member, &fs[b].member) {
                None
            } else {
                Some(b)
            },
            None => Some(b),
        },
        None => None,
    }
}

} // verus!
