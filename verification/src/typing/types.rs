//! Kinds as the typing pass knows them.

use vstd::prelude::*;
use crate::names::IRuneS;

verus! {

/// Whether a citizen is shared (immutable, reference counted) or single-owned.
#[derive(Clone, Copy, PartialEq, Eq, Structural, Debug)]
pub enum SharednessT {
    Single,
    Shared,
}

/// A compile-time value: what a rune or a template argument stands for.
#[derive(Debug)]
pub enum ITemplataT {
    Integer(i64),
    Boolean(bool),
    Kind(KindT),
    /// A generic parameter seen from inside the template, by its number.
    Placeholder(u32),
    /// A group argument.
    Group,
}

/// A citizen's template arguments, first to last, as the immutable list its interned name holds.
#[derive(Debug)]
pub enum TemplateArgsT {
    Nil,
    Cons(Box<ITemplataT>, Box<TemplateArgsT>),
}

/// The template arguments as a sequence.
pub open spec fn args_seq(a: TemplateArgsT) -> Seq<ITemplataT>
    decreases a,
{
    match a {
        TemplateArgsT::Nil => Seq::empty(),
        TemplateArgsT::Cons(head, tail) => seq![*head] + args_seq(*tail),
    }
}

/// A struct instantiation: its number, its template's number, and its template arguments.
#[derive(Debug)]
pub struct StructTT {
    pub id: u32,
    pub template: u32,
    pub template_args: TemplateArgsT,
}

/// An interface instantiation: its number, its template's number, and its template arguments.
#[derive(Debug)]
pub struct InterfaceTT {
    pub id: u32,
    pub template: u32,
    pub template_args: TemplateArgsT,
}

/// A kind placeholder: a generic parameter used as a kind inside its template, with the rune that
/// names it.
#[derive(Clone, Copy, PartialEq, Eq, Structural, Debug)]
pub struct KindPlaceholderT {
    pub id: u32,
    pub rune: IRuneS,
}

/// `&T`, `&&T` and the like: a wrapper around an inner kind.
#[derive(Debug)]
pub struct BorrowRefT {
    pub inner: Box<KindT>,
}

/// An inline array of a static size.
#[derive(Debug)]
pub struct StaticSizedArrayTT {
    pub size: i64,
    pub element_type: Box<KindT>,
}

/// A runtime-sized array.
#[derive(Debug)]
pub struct RuntimeSizedArrayTT {
    pub element_type: Box<KindT>,
}

/// A kind: what a typed expression evaluates to.
#[derive(Debug)]
pub enum KindT {
    Never,
    Void,
    Int { bits: i32 },
    Bool,
    Str,
    Float,
    USize,
    Struct(StructTT),
    Interface(InterfaceTT),
    StaticSizedArray(StaticSizedArrayTT),
    RuntimeSizedArray(RuntimeSizedArrayTT),
    KindPlaceholder(KindPlaceholderT),
    OverloadSet(u32),
    BorrowRef(BorrowRefT),
    WeakRef(BorrowRefT),
    OwnRef(BorrowRefT),
    ShareRef(BorrowRefT),
}

impl ITemplataT {
    /// A copy of this compile-time value.
    pub fn copy(&self) -> (r: ITemplataT)
        ensures r == *self,
        decreases self, 0nat,
    {
        match self {
            ITemplataT::Integer(n) => ITemplataT::Integer(*n),
            ITemplataT::Boolean(b) => ITemplataT::Boolean(*b),
            ITemplataT::Kind(k) => ITemplataT::Kind(k.copy()),
            ITemplataT::Placeholder(n) => ITemplataT::Placeholder(*n),
            ITemplataT::Group => ITemplataT::Group,
        }
    }
}

impl TemplateArgsT {
    /// A copy of these template arguments.
    pub fn copy(&self) -> (r: TemplateArgsT)
        ensures r == *self,
        decreases self, 1nat,
    {
        match self {
            TemplateArgsT::Nil => TemplateArgsT::Nil,
            TemplateArgsT::Cons(head, tail) => TemplateArgsT::Cons(Box::new(head.copy()), Box::new(tail.copy())),
        }
    }
}

/// Whether two compile-time values are the same.
pub fn same_templata(a: &ITemplataT, b: &ITemplataT) -> (r: bool)
    ensures r == (*a == *b),
    decreases a, 0nat,
{
    match (a, b) {
        (ITemplataT::Integer(x), ITemplataT::Integer(y)) => *x == *y,
        (ITemplataT::Boolean(x), ITemplataT::Boolean(y)) => *x == *y,
        (ITemplataT::Kind(x), ITemplataT::Kind(y)) => same_kind(x, y),
        (ITemplataT::Placeholder(x), ITemplataT::Placeholder(y)) => *x == *y,
        (ITemplataT::Group, ITemplataT::Group) => true,
        _ => false,
    }
}

/// Whether two lists of template arguments are the same.
pub fn same_args(a: &TemplateArgsT, b: &TemplateArgsT) -> (r: bool)
    ensures r == (*a == *b),
    decreases a, 1nat,
{
    match (a, b) {
        (TemplateArgsT::Nil, TemplateArgsT::Nil) => true,
        (TemplateArgsT::Cons(x, xs), TemplateArgsT::Cons(y, ys)) => same_templata(x, y) && same_args(xs, ys),
        _ => false,
    }
}

impl KindT {
    /// A copy of this kind.
    pub fn copy(&self) -> (r: KindT)
        ensures r == *self,
        decreases self, 2nat,
    {
        match self {
            KindT::Never => KindT::Never,
            KindT::Void => KindT::Void,
            KindT::Int { bits } => KindT::Int { bits: *bits },
            KindT::Bool => KindT::Bool,
            KindT::Str => KindT::Str,
            KindT::Float => KindT::Float,
            KindT::USize => KindT::USize,
            KindT::Struct(s) => KindT::Struct(StructTT { id: s.id, template: s.template, template_args: s.template_args.copy() }),
            KindT::Interface(i) => KindT::Interface(InterfaceTT { id: i.id, template: i.template, template_args: i.template_args.copy() }),
            KindT::StaticSizedArray(a) => KindT::StaticSizedArray(StaticSizedArrayTT {
                size: a.size,
                element_type: Box::new(a.element_type.copy()),
            }),
            KindT::RuntimeSizedArray(a) => KindT::RuntimeSizedArray(RuntimeSizedArrayTT {
                element_type: Box::new(a.element_type.copy()),
            }),
            KindT::KindPlaceholder(n) => KindT::KindPlaceholder(*n),
            KindT::OverloadSet(n) => KindT::OverloadSet(*n),
            KindT::BorrowRef(b) => KindT::BorrowRef(BorrowRefT { inner: Box::new(b.inner.copy()) }),
            KindT::WeakRef(b) => KindT::WeakRef(BorrowRefT { inner: Box::new(b.inner.copy()) }),
            KindT::OwnRef(b) => KindT::OwnRef(BorrowRefT { inner: Box::new(b.inner.copy()) }),
            KindT::ShareRef(b) => KindT::ShareRef(BorrowRefT { inner: Box::new(b.inner.copy()) }),
        }
    }
}

/// Whether two kinds are the same.
pub fn same_kind(a: &KindT, b: &KindT) -> (r: bool)
    ensures r == (*a == *b),
    decreases a, 2nat,
{
    match (a, b) {
        (KindT::Never, KindT::Never) => true,
        (KindT::Void, KindT::Void) => true,
        (KindT::Int { bits: x }, KindT::Int { bits: y }) => *x == *y,
        (KindT::Bool, KindT::Bool) => true,
        (KindT::Str, KindT::Str) => true,
        (KindT::Float, KindT::Float) => true,
        (KindT::USize, KindT::USize) => true,
        (KindT::Struct(x), KindT::Struct(y)) =>
            x.id == y.id && x.template == y.template && same_args(&x.template_args, &y.template_args),
        (KindT::Interface(x), KindT::Interface(y)) =>
            x.id == y.id && x.template == y.template && same_args(&x.template_args, &y.template_args),
        (KindT::StaticSizedArray(x), KindT::StaticSizedArray(y)) => x.size == y.size && same_kind(&x.element_type, &y.element_type),
        (KindT::RuntimeSizedArray(x), KindT::RuntimeSizedArray(y)) => same_kind(&x.element_type, &y.element_type),
        (KindT::KindPlaceholder(x), KindT::KindPlaceholder(y)) => *x == *y,
        (KindT::OverloadSet(x), KindT::OverloadSet(y)) => *x == *y,
        (KindT::BorrowRef(x), KindT::BorrowRef(y)) => same_kind(&x.inner, &y.inner),
        (KindT::WeakRef(x), KindT::WeakRef(y)) => same_kind(&x.inner, &y.inner),
        (KindT::OwnRef(x), KindT::OwnRef(y)) => same_kind(&x.inner, &y.inner),
        (KindT::ShareRef(x), KindT::ShareRef(y)) => same_kind(&x.inner, &y.inner),
        _ => false,
    }
}

/// A kind with every reference wrapper around it taken off.
pub open spec fn peel_all(k: KindT) -> KindT
    decreases k,
{
    match k {
        KindT::BorrowRef(b) => peel_all(*b.inner),
        KindT::WeakRef(b) => peel_all(*b.inner),
        KindT::OwnRef(b) => peel_all(*b.inner),
        KindT::ShareRef(b) => peel_all(*b.inner),
        other => other,
    }
}

/// The kind under every reference wrapper.
pub fn peel_all_references(k: &KindT) -> (r: &KindT)
    ensures *r == peel_all(*k),
    decreases k,
{
    match k {
        KindT::BorrowRef(b) => peel_all_references(&b.inner),
        KindT::WeakRef(b) => peel_all_references(&b.inner),
        KindT::OwnRef(b) => peel_all_references(&b.inner),
        KindT::ShareRef(b) => peel_all_references(&b.inner),
        _ => k,
    }
}

} // verus!
