//! The builtin optional and result types a desugared expression needs: the interface instantiated
//! at the contained kinds, the constructors of its two cases, and the impls that make each case a
//! subtype of the interface.

use vstd::prelude::*;
use crate::range::RangeS;
use crate::compiler_error_reporter::{ICompileErrorT, copy_ranges};
use crate::typing::types::{KindT, InterfaceTT};
use crate::typing::expressions::PrototypeTT;
use crate::typing::compiler::{Compiler, CompilerOutputs, ImplT};
use crate::typing::convert_helper::find_impl;

verus! {

/// What resolving a call of a generic constructor answered: the function chosen, or a failure.
pub enum ResolveFunctionResultT {
    Success(PrototypeTT),
    Failure,
}

/// The id of the first impl making `sub` a subtype of `sup`, if any.
pub open spec fn impl_id_between(impls: Seq<ImplT>, sub: KindT, sup: KindT) -> Option<u32> {
    match find_impl(impls, sub, sup) {
        Some(i) => Some(impls[i].impl_id),
        None => None,
    }
}

/// A case constructor returns a citizen that some impl makes a subtype of the interface.
pub open spec fn case_ok(co: CompilerOutputs, c: ResolveFunctionResultT, iface: InterfaceTT, struct_only: bool) -> bool {
    c matches ResolveFunctionResultT::Success(p) && (p.return_type is Struct || (!struct_only && p.return_type is Interface))
        && impl_id_between(co.impls@, p.return_type, KindT::Interface(iface)) is Some
}

/// The first impl making `sub` a subtype of `sup`.
fn impl_between(coutputs: &CompilerOutputs, sub: &KindT, sup: &KindT) -> (r: Option<u32>)
    ensures r == impl_id_between(coutputs.impls@, *sub, *sup),
{
    let mut i: usize = 0;
    assert(coutputs.impls@.subrange(0, coutputs.impls@.len() as int) =~= coutputs.impls@);
    while i < coutputs.impls.len()
        invariant
            i <= coutputs.impls@.len(),
            find_impl(coutputs.impls@, *sub, *sup) == match find_impl(coutputs.impls@.subrange(i as int, coutputs.impls@.len() as int), *sub, *sup) {
                Some(j) => Some(j + i),
                None => None::<int>,
            },
        decreases coutputs.impls@.len() - i,
    {
        proof {
            let rest = coutputs.impls@.subrange(i as int, coutputs.impls@.len() as int);
            assert(rest.drop_first() =~= coutputs.impls@.subrange(i + 1, coutputs.impls@.len() as int));
            assert(rest[0] == coutputs.impls@[i as int]);
        }
        let imp = &coutputs.impls[i];
        if crate::typing::types::same_kind(&imp.sub, sub) && crate::typing::types::same_kind(&imp.sup, sup) {
            return Some(imp.impl_id);
        }
        i = i + 1;
    }
    None
}

impl Compiler {
    /// The optional type at a contained kind: `opt_interface` is the optional interface resolved at
    /// that kind, and the two constructors are what resolving `Some` and `None` at it chose. Gives
    /// the interface's kind, both constructors, and the impls making each case an optional.
    pub fn get_option(&self, coutputs: &CompilerOutputs, opt_interface: &InterfaceTT,
        some_constructor: ResolveFunctionResultT, none_constructor: ResolveFunctionResultT)
        -> (r: (KindT, PrototypeTT, PrototypeTT, u32, u32))
        requires
            case_ok(*coutputs, some_constructor, *opt_interface, false),
            case_ok(*coutputs, none_constructor, *opt_interface, false),
        ensures
            r.0 == KindT::Interface(*opt_interface),
            r.1.same(some_constructor->Success_0),
            r.2.same(none_constructor->Success_0),
            Some(r.3) == impl_id_between(coutputs.impls@, some_constructor->Success_0.return_type, KindT::Interface(*opt_interface)),
            Some(r.4) == impl_id_between(coutputs.impls@, none_constructor->Success_0.return_type, KindT::Interface(*opt_interface)),
    {
        let own = KindT::Interface(InterfaceTT { id: opt_interface.id, template: opt_interface.template, template_args: opt_interface.template_args.copy() });
        let some_p = match some_constructor { ResolveFunctionResultT::Success(p) => p, ResolveFunctionResultT::Failure => PrototypeTT { id: 0, name: crate::interner::StrI(0), params: Vec::new(), return_type: KindT::Void } };
        let none_p = match none_constructor { ResolveFunctionResultT::Success(p) => p, ResolveFunctionResultT::Failure => PrototypeTT { id: 0, name: crate::interner::StrI(0), params: Vec::new(), return_type: KindT::Void } };
        let some_impl = match impl_between(coutputs, &some_p.return_type, &own) { Some(i) => i, None => 0 };
        let none_impl = match impl_between(coutputs, &none_p.return_type, &own) { Some(i) => i, None => 0 };
        (own, some_p, none_p, some_impl, none_impl)
    }

    /// The result type at a success and a failure kind: `result_interface` is the result interface
    /// resolved at them, and the two constructors are what resolving `Ok` and `Err` at them chose.
    /// A constructor that could not be resolved is a resolving error at `range`, the `Ok` one first.
    /// Gives the interface's kind, and each constructor with the impl making its case a result.
    pub fn get_result(&self, coutputs: &CompilerOutputs, range: &Vec<RangeS>, result_interface: &InterfaceTT,
        ok_constructor: ResolveFunctionResultT, err_constructor: ResolveFunctionResultT)
        -> (r: Result<(KindT, PrototypeTT, u32, PrototypeTT, u32), ICompileErrorT>)
        requires
            ok_constructor is Success ==> case_ok(*coutputs, ok_constructor, *result_interface, true),
            err_constructor is Success ==> case_ok(*coutputs, err_constructor, *result_interface, true),
        ensures
            (r is Ok) == (ok_constructor is Success && err_constructor is Success),
            r matches Err(e) ==> e matches ICompileErrorT::TypingPassResolvingError { range: rg } && rg@ == range@,
            r matches Ok(x) ==> {
                &&& x.0 == KindT::Interface(*result_interface)
                &&& x.1.same(ok_constructor->Success_0)
                &&& Some(x.2) == impl_id_between(coutputs.impls@, ok_constructor->Success_0.return_type, KindT::Interface(*result_interface))
                &&& x.3.same(err_constructor->Success_0)
                &&& Some(x.4) == impl_id_between(coutputs.impls@, err_constructor->Success_0.return_type, KindT::Interface(*result_interface))
            },
    {
        let own = KindT::Interface(InterfaceTT { id: result_interface.id, template: result_interface.template, template_args: result_interface.template_args.copy() });
        let ok_p = match ok_constructor {
            ResolveFunctionResultT::Success(p) => p,
            ResolveFunctionResultT::Failure => { return Err(ICompileErrorT::TypingPassResolvingError { range: copy_ranges(range) }); },
        };
        let ok_impl = match impl_between(coutputs, &ok_p.return_type, &own) { Some(i) => i, None => 0 };
        let err_p = match err_constructor {
            ResolveFunctionResultT::Success(p) => p,
            ResolveFunctionResultT::Failure => { return Err(ICompileErrorT::TypingPassResolvingError { range: copy_ranges(range) }); },
        };
        let err_impl = match impl_between(coutputs, &err_p.return_type, &own) { Some(i) => i, None => 0 };
        Ok((own, ok_p, ok_impl, err_p, err_impl))
    }
}

} // verus!
