//! Kinds as the borrow checker sees them: a typed kind with the group of every borrow spelled out.

use vstd::prelude::*;
use crate::borrow_checker::group_expr::{GroupPathG, GroupPathV, paths_view, copy_paths};

verus! {

/// A group expression attached to a borrow: the union of its paths.
#[derive(Debug)]
pub struct GroupGT {
    pub group: Vec<GroupPathG>,
}

/// `&T in g`: a borrow of `inner` pointing into `group`.
#[derive(Debug)]
pub struct BorrowRefGT {
    pub group: GroupGT,
    pub inner: Box<KindGT>,
}

/// An owning, shared or weak wrapper around a kind.
#[derive(Debug)]
pub struct WrapRefGT {
    pub inner: Box<KindGT>,
}

/// A struct or interface: its number, its template's number, and its template arguments.
#[derive(Debug)]
pub struct CitizenGT {
    pub id: u32,
    pub template: u32,
    pub template_args: Vec<ITemplataG>,
}

/// An array kind and its element type.
#[derive(Debug)]
pub struct ArrayGT {
    pub element_type: Box<KindGT>,
}

#[derive(Debug)]
pub enum KindGT {
    BorrowRef(BorrowRefGT),
    Struct(CitizenGT),
    Interface(CitizenGT),
    StaticSizedArray(ArrayGT),
    RuntimeSizedArray(ArrayGT),
    OwnRef(WrapRefGT),
    ShareRef(WrapRefGT),
    WeakRef(WrapRefGT),
    Never,
    Void,
    Int,
    Bool,
    Str,
    Float,
    USize,
    /// A generic parameter of the function being checked, by its number.
    KindPlaceholder(u32),
    /// The set of functions a name can call, by its environment's number.
    OverloadSet(u32),
}

/// A group argument: the group's paths and the kind of what lives there.
#[derive(Debug)]
pub struct GroupTemplataG {
    pub group: Vec<GroupPathG>,
    pub kind: Box<KindGT>,
}

/// A template argument or rune binding: a kind, a group, or something that names no group.
#[derive(Debug)]
pub enum ITemplataG {
    Kind(Box<KindGT>),
    Group(GroupTemplataG),
    Integer(i64),
    Boolean(bool),
    /// A generic parameter of the function being checked, by its number.
    Placeholder(u32),
    /// A struct template, by its number.
    StructDefinition(u32),
    /// An interface template, by its number.
    InterfaceDefinition(u32),
}

/// The mathematical value of a grouped kind.
pub enum KindGV {
    BorrowRef { group: Seq<GroupPathV>, inner: Box<KindGV> },
    Struct { id: u32, template: u32, args: Seq<TemplataGV> },
    Interface { id: u32, template: u32, args: Seq<TemplataGV> },
    StaticSizedArray(Box<KindGV>),
    RuntimeSizedArray(Box<KindGV>),
    OwnRef(Box<KindGV>),
    ShareRef(Box<KindGV>),
    WeakRef(Box<KindGV>),
    Never,
    Void,
    Int,
    Bool,
    Str,
    Float,
    USize,
    KindPlaceholder(u32),
    OverloadSet(u32),
}

/// The mathematical value of a template argument or rune binding.
pub enum TemplataGV {
    Kind(KindGV),
    Group { group: Seq<GroupPathV>, kind: KindGV },
    Integer(i64),
    Boolean(bool),
    Placeholder(u32),
    StructDefinition(u32),
    InterfaceDefinition(u32),
}

/// The value of a grouped kind.
pub open spec fn kind_v(k: KindGT) -> KindGV
    decreases k,
{
    match k {
        KindGT::BorrowRef(b) => KindGV::BorrowRef { group: paths_view(b.group.group@), inner: Box::new(kind_v(*b.inner)) },
        KindGT::Struct(c) => KindGV::Struct { id: c.id, template: c.template, args: templatas_v(c.template_args@) },
        KindGT::Interface(c) => KindGV::Interface { id: c.id, template: c.template, args: templatas_v(c.template_args@) },
        KindGT::StaticSizedArray(a) => KindGV::StaticSizedArray(Box::new(kind_v(*a.element_type))),
        KindGT::RuntimeSizedArray(a) => KindGV::RuntimeSizedArray(Box::new(kind_v(*a.element_type))),
        KindGT::OwnRef(w) => KindGV::OwnRef(Box::new(kind_v(*w.inner))),
        KindGT::ShareRef(w) => KindGV::ShareRef(Box::new(kind_v(*w.inner))),
        KindGT::WeakRef(w) => KindGV::WeakRef(Box::new(kind_v(*w.inner))),
        KindGT::Never => KindGV::Never,
        KindGT::Void => KindGV::Void,
        KindGT::Int => KindGV::Int,
        KindGT::Bool => KindGV::Bool,
        KindGT::Str => KindGV::Str,
        KindGT::Float => KindGV::Float,
        KindGT::USize => KindGV::USize,
        KindGT::KindPlaceholder(n) => KindGV::KindPlaceholder(n),
        KindGT::OverloadSet(n) => KindGV::OverloadSet(n),
    }
}

/// The values of a list of template arguments.
pub open spec fn templatas_v(args: Seq<ITemplataG>) -> Seq<TemplataGV>
    decreases args,
{
    if args.len() == 0 {
        Seq::empty()
    } else {
        templatas_v(args.subrange(0, args.len() - 1)).push(templata_v(args[args.len() - 1]))
    }
}

/// The value of a template argument.
pub open spec fn templata_v(t: ITemplataG) -> TemplataGV
    decreases t,
{
    match t {
        ITemplataG::Kind(k) => TemplataGV::Kind(kind_v(*k)),
        ITemplataG::Group(g) => TemplataGV::Group { group: paths_view(g.group@), kind: kind_v(*g.kind) },
        ITemplataG::Integer(n) => TemplataGV::Integer(n),
        ITemplataG::Boolean(b) => TemplataGV::Boolean(b),
        ITemplataG::Placeholder(n) => TemplataGV::Placeholder(n),
        ITemplataG::StructDefinition(n) => TemplataGV::StructDefinition(n),
        ITemplataG::InterfaceDefinition(n) => TemplataGV::InterfaceDefinition(n),
    }
}

/// `templatas_v` is taken argument by argument.
pub proof fn lemma_templatas_v(args: Seq<ITemplataG>)
    ensures
        templatas_v(args).len() == args.len(),
        forall|i: int| 0 <= i < args.len() ==> #[trigger] templatas_v(args)[i] == templata_v(args[i]),
    decreases args.len(),
{
    if args.len() > 0 {
        let pre = args.subrange(0, args.len() - 1);
        lemma_templatas_v(pre);
        assert forall|i: int| 0 <= i < args.len() implies #[trigger] templatas_v(args)[i] == templata_v(args[i]) by {
            if i < args.len() - 1 {
                assert(pre[i] == args[i]);
            }
        }
    }
}

/// Every group path a value of this kind may point into, in the order the checker collects them:
/// its outer borrow, nested borrows, and the group arguments of the citizens it holds.
pub open spec fn kind_mentions(k: KindGT) -> Seq<GroupPathV>
    decreases k,
{
    match k {
        KindGT::BorrowRef(b) => paths_view(b.group.group@) + kind_mentions(*b.inner),
        KindGT::Struct(s) => templatas_mentions(s.template_args@),
        KindGT::Interface(i) => templatas_mentions(i.template_args@),
        KindGT::StaticSizedArray(a) => kind_mentions(*a.element_type),
        KindGT::RuntimeSizedArray(a) => kind_mentions(*a.element_type),
        KindGT::OwnRef(w) => kind_mentions(*w.inner),
        KindGT::ShareRef(w) => kind_mentions(*w.inner),
        KindGT::WeakRef(w) => kind_mentions(*w.inner),
        _ => Seq::empty(),
    }
}

/// The group paths a list of template arguments mentions, argument by argument.
pub open spec fn templatas_mentions(args: Seq<ITemplataG>) -> Seq<GroupPathV>
    decreases args,
{
    if args.len() == 0 {
        Seq::empty()
    } else {
        templatas_mentions(args.subrange(0, args.len() - 1)) + templata_mentions(args[args.len() - 1])
    }
}

pub open spec fn templata_mentions(t: ITemplataG) -> Seq<GroupPathV>
    decreases t,
{
    match t {
        ITemplataG::Kind(k) => kind_mentions(*k),
        ITemplataG::Group(g) => paths_view(g.group@),
        _ => Seq::empty(),
    }
}

impl KindGT {
    /// A copy of this kind.
    pub fn copy(&self) -> (r: KindGT)
        ensures kind_v(r) == kind_v(*self),
        decreases self, 2int,
    {
        match self {
            KindGT::BorrowRef(b) => KindGT::BorrowRef(BorrowRefGT {
                group: GroupGT { group: copy_paths(&b.group.group) },
                inner: Box::new(b.inner.copy()),
            }),
            KindGT::Struct(c) => {
                let args = copy_templatas_g(&c.template_args);
                KindGT::Struct(CitizenGT { id: c.id, template: c.template, template_args: args })
            },
            KindGT::Interface(c) => {
                let args = copy_templatas_g(&c.template_args);
                KindGT::Interface(CitizenGT { id: c.id, template: c.template, template_args: args })
            },
            KindGT::StaticSizedArray(a) => KindGT::StaticSizedArray(ArrayGT { element_type: Box::new(a.element_type.copy()) }),
            KindGT::RuntimeSizedArray(a) => KindGT::RuntimeSizedArray(ArrayGT { element_type: Box::new(a.element_type.copy()) }),
            KindGT::OwnRef(w) => KindGT::OwnRef(WrapRefGT { inner: Box::new(w.inner.copy()) }),
            KindGT::ShareRef(w) => KindGT::ShareRef(WrapRefGT { inner: Box::new(w.inner.copy()) }),
            KindGT::WeakRef(w) => KindGT::WeakRef(WrapRefGT { inner: Box::new(w.inner.copy()) }),
            KindGT::Never => KindGT::Never,
            KindGT::Void => KindGT::Void,
            KindGT::Int => KindGT::Int,
            KindGT::Bool => KindGT::Bool,
            KindGT::Str => KindGT::Str,
            KindGT::Float => KindGT::Float,
            KindGT::USize => KindGT::USize,
            KindGT::KindPlaceholder(n) => KindGT::KindPlaceholder(*n),
            KindGT::OverloadSet(n) => KindGT::OverloadSet(*n),
        }
    }
}

impl ITemplataG {
    /// A copy of this template argument.
    pub fn copy(&self) -> (r: ITemplataG)
        ensures templata_v(r) == templata_v(*self),
        decreases self, 0int,
    {
        match self {
            ITemplataG::Kind(k) => ITemplataG::Kind(Box::new(k.copy())),
            ITemplataG::Group(g) => ITemplataG::Group(GroupTemplataG { group: copy_paths(&g.group), kind: Box::new(g.kind.copy()) }),
            ITemplataG::Integer(n) => ITemplataG::Integer(*n),
            ITemplataG::Boolean(b) => ITemplataG::Boolean(*b),
            ITemplataG::Placeholder(n) => ITemplataG::Placeholder(*n),
            ITemplataG::StructDefinition(n) => ITemplataG::StructDefinition(*n),
            ITemplataG::InterfaceDefinition(n) => ITemplataG::InterfaceDefinition(*n),
        }
    }
}

/// A copy of a list of template arguments.
pub fn copy_templatas_g(ts: &Vec<ITemplataG>) -> (r: Vec<ITemplataG>)
    ensures templatas_v(r@) == templatas_v(ts@),
    decreases ts, 1int,
{
    let mut out: Vec<ITemplataG> = Vec::new();
    let mut i: usize = 0;
    proof { lemma_templatas_v(ts@); }
    while i < ts.len()
        invariant
            i <= ts@.len(),
            out@.len() == i,
            templatas_v(ts@).len() == ts@.len(),
            forall|j: int| 0 <= j < ts@.len() ==> #[trigger] templatas_v(ts@)[j] == templata_v(ts@[j]),
            forall|j: int| 0 <= j < i ==> #[trigger] templata_v(out@[j]) == templata_v(ts@[j]),
        decreases ts@.len() - i,
    {
        proof {
            assert(decreases_to!(*ts => ts@));
            assert(decreases_to!(ts@ => ts@[i as int]));
        }
        out.push(ts[i].copy());
        i = i + 1;
    }
    proof {
        lemma_templatas_v(out@);
        assert(templatas_v(out@) =~= templatas_v(ts@));
    }
    out
}

} // verus!
