//! The compiler: the state the typing pass and the borrow checker share.

use vstd::prelude::*;
use crate::interner::{Interner, StrI};
use crate::names::{IRuneS, IVarNameT};
use crate::loc::{LocT, copy_path};
use crate::postparsing::{FunctionS, ITypeST};
use crate::typing::types::{KindT, SharednessT};
use crate::typing::expressions::PrototypeTT;

verus! {

/// Interned node locations: a temporary's name is the handle of the location that made it.
pub struct TypingInterner {
    pub locs: Vec<Vec<i32>>,
}

/// Interning location `l` into table `t` gave table `t2` and handle `h`: the handle of the first
/// equal entry and no change if there is one, else a new last entry.
pub open spec fn interned_loc(t: Seq<Seq<i32>>, l: Seq<i32>, t2: Seq<Seq<i32>>, h: u32) -> bool {
    &&& h < t2.len()
    &&& t2[h as int] == l
    &&& forall|j: int| 0 <= j < h ==> t2[j] != l
    &&& if exists|i: int| 0 <= i < t.len() && t[i] == l { t2 == t } else { t2 == t.push(l) }
}

/// Interning a location twice gives the same handle, and the second time changes nothing.
pub proof fn law_intern_loc_twice(t: Seq<Seq<i32>>, l: Seq<i32>, t1: Seq<Seq<i32>>, t2: Seq<Seq<i32>>, h1: u32, h2: u32)
    requires interned_loc(t, l, t1, h1), interned_loc(t1, l, t2, h2),
    ensures h1 == h2, t2 == t1,
{
    assert(t1[h1 as int] == l);
    if h2 < h1 {
        assert(t2[h2 as int] == l);
    } else if h1 < h2 {
        assert(t2[h1 as int] == l);
    }
}

impl TypingInterner {
    /// The interned locations, as paths.
    pub open spec fn loc_paths(&self) -> Seq<Seq<i32>> {
        self.locs@.map_values(|l: Vec<i32>| l@)
    }

    /// Intern a location: the handle of an equal one if there is one, else of a new last one.
    pub fn intern_loc(&mut self, loct: &LocT) -> (r: u32)
        requires old(self).locs@.len() < u32::MAX,
        ensures
            r < final(self).locs@.len(),
            final(self).loc_paths()[r as int] == loct@,
            old(self).loc_paths().is_prefix_of(final(self).loc_paths()),
            final(self).locs@.len() <= old(self).locs@.len() + 1,
            (exists|i: int| 0 <= i < old(self).locs@.len() && old(self).loc_paths()[i] == loct@)
                <==> final(self).locs@.len() == old(self).locs@.len(),
            interned_loc(old(self).loc_paths(), loct@, final(self).loc_paths(), r),
    {
        let n = self.locs.len();
        let mut i: usize = 0;
        while i < n
            invariant
                n == self.locs@.len(),
                n < u32::MAX,
                i <= n,
                forall|j: int| 0 <= j < i ==> self.locs@[j]@ != loct@,
            decreases n - i,
        {
            if same_path(&self.locs[i], &loct.path) {
                proof {
                    assert(self.loc_paths().is_prefix_of(self.loc_paths())) by { assert(self.loc_paths().subrange(0, n as int) =~= self.loc_paths()); }
                    assert(self.loc_paths()[i as int] == loct@);
                    assert forall|j: int| 0 <= j < i implies self.loc_paths()[j] != loct@ by {
                        assert(self.loc_paths()[j] == self.locs@[j]@);
                    }
                }
                return i as u32;
            }
            i = i + 1;
        }
        let ghost before = self.loc_paths();
        self.locs.push(copy_path(&loct.path));
        proof {
            assert(self.loc_paths() =~= before.push(loct@));
            assert(before.is_prefix_of(self.loc_paths())) by { assert(self.loc_paths().subrange(0, n as int) =~= before); }
            assert forall|j: int| 0 <= j < n implies before[j] != loct@ by {
                assert(before[j] == self.locs@[j]@);
            }
            assert forall|j: int| 0 <= j < n implies self.loc_paths()[j] != loct@ by {
                assert(self.loc_paths()[j] == before[j]);
            }
        }
        n as u32
    }

    /// The name of the temporary made at a location.
    pub fn intern_typing_pass_temporary_var_name(&mut self, loct: &LocT) -> (r: IVarNameT)
        requires old(self).locs@.len() < u32::MAX,
        ensures
            r matches IVarNameT::TypingPassTemporaryVarName(h) && h < final(self).locs@.len() && final(self).loc_paths()[h as int] == loct@,
            old(self).loc_paths().is_prefix_of(final(self).loc_paths()),
            final(self).locs@.len() <= old(self).locs@.len() + 1,
    {
        IVarNameT::TypingPassTemporaryVarName(self.intern_loc(loct))
    }

    /// The name of the local that holds a block's result, made at a location.
    pub fn intern_typing_pass_block_result_var_name(&mut self, loct: &LocT) -> (r: IVarNameT)
        requires old(self).locs@.len() < u32::MAX,
        ensures
            r matches IVarNameT::TypingPassBlockResultVarName(h) && h < final(self).locs@.len() && final(self).loc_paths()[h as int] == loct@,
            old(self).loc_paths().is_prefix_of(final(self).loc_paths()),
            final(self).locs@.len() <= old(self).locs@.len() + 1,
    {
        IVarNameT::TypingPassBlockResultVarName(self.intern_loc(loct))
    }
}

/// Whether two location paths are equal.
fn same_path(a: &Vec<i32>, b: &Vec<i32>) -> (r: bool)
    ensures r == (a@ == b@),
{
    if a.len() != b.len() {
        return false;
    }
    let mut i: usize = 0;
    while i < a.len()
        invariant
            a@.len() == b@.len(),
            i <= a@.len(),
            forall|k: int| 0 <= k < i ==> a@[k] == b@[k],
        decreases a@.len() - i,
    {
        if a[i] != b[i] {
            return false;
        }
        i = i + 1;
    }
    assert(a@ =~= b@);
    true
}

/// The interned names the typing pass looks functions up by.
pub struct Keywords {
    /// `drop`.
    pub drop: StrI,
    /// `E`, the element rune of the array builtins.
    pub e: StrI,
    /// `implicit_clone`.
    pub implicit_clone: StrI,
}

/// An impl that makes `sub` a subtype of `sup`; a bound impl (`implements(T, I)`) stands for one
/// a placeholder will have.
#[derive(Debug)]
pub struct ImplT {
    pub sub: KindT,
    pub sup: KindT,
    pub impl_id: u32,
    pub is_bound: bool,
}

/// The compiler's shared state.
pub struct Compiler {
    /// The source's interned strings.
    pub interner: Interner,
    /// Interned node locations.
    pub typing_interner: TypingInterner,
    pub keywords: Keywords,
}

/// A struct member: its name, its type as written, and its kind as typed.
#[derive(Debug)]
pub struct StructMemberT {
    pub name: StrI,
    pub written: ITypeST,
    pub tyype: KindT,
}

/// A struct template as the postparser wrote it and the typing pass typed it: its number, its
/// generic parameters' runes, and its members in order.
#[derive(Debug)]
pub struct StructTemplateT {
    pub template: u32,
    pub generic_params: Vec<IRuneS>,
    pub members: Vec<StructMemberT>,
}

/// What the typing pass has produced so far that later phases read.
pub struct CompilerOutputs {
    /// Each function template's number, with its postparsed header.
    pub functions: Vec<(u32, FunctionS)>,
    /// The function prototypes a call can resolve to.
    pub prototypes: Vec<PrototypeTT>,
    /// Each struct's number, with whether it is shared.
    pub structs: Vec<(u32, SharednessT)>,
    /// Each interface's number, with whether it is shared.
    pub interfaces: Vec<(u32, SharednessT)>,
    /// The return kinds declared so far, by function number, in declaration order.
    pub return_types: Vec<(u32, KindT)>,
    /// The impls: which kinds are subtypes of which.
    pub impls: Vec<ImplT>,
    /// The kinds whose values are copied where a reference to one is used as a value.
    pub implicitly_cloneable: Vec<KindT>,
    /// The struct templates.
    pub struct_templates: Vec<StructTemplateT>,
    /// The interface templates' numbers.
    pub interface_templates: Vec<u32>,
}

/// The position of the struct template numbered `template` (the first), if there is one.
pub open spec fn struct_template_in(ts: Seq<StructTemplateT>, template: u32) -> Option<int>
    decreases ts.len(),
{
    if ts.len() == 0 {
        None
    } else if ts[0].template == template {
        Some(0)
    } else {
        match struct_template_in(ts.drop_first(), template) {
            Some(i) => Some(i + 1),
            None => None,
        }
    }
}

/// What the postparser declared under a citizen template's number: `Some(true)` for a struct,
/// `Some(false)` for an interface, `None` for neither.
pub open spec fn citizen_denizen(coutputs: CompilerOutputs, template: u32) -> Option<bool> {
    if struct_template_in(coutputs.struct_templates@, template) is Some {
        Some(true)
    } else if coutputs.interface_templates@.contains(template) {
        Some(false)
    } else {
        None
    }
}

/// The postparsed header of the function template numbered `id`, if there is one (the first).
pub open spec fn function_template(coutputs: CompilerOutputs, id: u32) -> Option<FunctionS>
    decreases coutputs.functions@.len(),
{
    function_template_in(coutputs.functions@, id)
}

pub open spec fn function_template_in(fs: Seq<(u32, FunctionS)>, id: u32) -> Option<FunctionS>
    decreases fs.len(),
{
    if fs.len() == 0 {
        None
    } else if fs[0].0 == id {
        Some(fs[0].1)
    } else {
        function_template_in(fs.drop_first(), id)
    }
}

impl CompilerOutputs {
    /// The struct template numbered `template` (the first), if the outputs hold one.
    pub fn struct_template(&self, template: u32) -> (r: Option<&StructTemplateT>)
        ensures
            match struct_template_in(self.struct_templates@, template) {
                Some(i) => r matches Some(x) && *x == self.struct_templates@[i],
                None => r is None,
            },
    {
        let mut i: usize = 0;
        assert(self.struct_templates@.subrange(0, self.struct_templates@.len() as int) =~= self.struct_templates@);
        while i < self.struct_templates.len()
            invariant
                i <= self.struct_templates@.len(),
                struct_template_in(self.struct_templates@, template) == match struct_template_in(self.struct_templates@.subrange(i as int, self.struct_templates@.len() as int), template) {
                    Some(j) => Some(j + i),
                    None => None,
                },
            decreases self.struct_templates@.len() - i,
        {
            proof {
                let rest = self.struct_templates@.subrange(i as int, self.struct_templates@.len() as int);
                assert(rest.drop_first() =~= self.struct_templates@.subrange(i + 1, self.struct_templates@.len() as int));
            }
            if self.struct_templates[i].template == template {
                return Some(&self.struct_templates[i]);
            }
            i = i + 1;
        }
        None
    }

    /// Whether the outputs hold an interface template numbered `template`.
    pub fn has_interface_template(&self, template: u32) -> (r: bool)
        ensures r == self.interface_templates@.contains(template),
    {
        let mut i: usize = 0;
        while i < self.interface_templates.len()
            invariant
                i <= self.interface_templates@.len(),
                forall|j: int| 0 <= j < i ==> self.interface_templates@[j] != template,
            decreases self.interface_templates@.len() - i,
        {
            if self.interface_templates[i] == template {
                return true;
            }
            i = i + 1;
        }
        false
    }

    /// Record the return kind of a function.
    pub fn declare_function_return_type(&mut self, id: u32, return_type: KindT)
        ensures
            final(self).return_types@ == old(self).return_types@.push((id, return_type)),
            final(self).functions@ == old(self).functions@,
            final(self).prototypes@ == old(self).prototypes@,
            final(self).structs@ == old(self).structs@,
            final(self).interfaces@ == old(self).interfaces@,
            final(self).impls@ == old(self).impls@,
            final(self).implicitly_cloneable@ == old(self).implicitly_cloneable@,
            final(self).struct_templates@ == old(self).struct_templates@,
            final(self).interface_templates@ == old(self).interface_templates@,
    {
        self.return_types.push((id, return_type));
    }
}

} // verus!
