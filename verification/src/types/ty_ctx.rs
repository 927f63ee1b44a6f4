//! The context that makes types and holds the common ones.
use vstd::prelude::*;

use crate::diagnostics::ErrGuaranteed;
use crate::types::ty::{FloatTy, FuncTy, IntTy, ParamId, Ty, TyKind, TyTree, UIntTy, VarId, tys_view};
use crate::types::ty_interners::CommonTypes;

verus! {

/// Makes types, and hands out the common ones.
pub struct TyCtx {
    common: CommonTypes,
}

impl TyCtx {
    #[verifier::type_invariant]
    spec fn inv(self) -> bool {
        self.common.wf()
    }

    /// The common types that the context holds.
    pub closed spec fn common_spec(&self) -> CommonTypes {
        self.common
    }

    /// A context that holds each of the common types.
    pub fn new() -> (r: TyCtx)
        ensures
            r.common_spec().wf(),
    {
        TyCtx { common: CommonTypes::new() }
    }

    /// The common types, made once.
    pub fn common(&self) -> (r: &CommonTypes)
        ensures
            r.wf(),
            *r == self.common_spec(),
    {
        proof {
            use_type_invariant(self);
        }
        &self.common
    }

    pub fn mk_ty_from_kind(&self, kind: TyKind) -> (r: Ty)
        ensures
            r@ == kind@,
    {
        Ty(Box::new(kind))
    }

    pub fn mk_never(&self) -> (r: Ty)
        ensures
            r@ == TyTree::Never,
    {
        Ty(Box::new(TyKind::Never))
    }

    pub fn mk_any(&self) -> (r: Ty)
        ensures
            r@ == TyTree::Any,
    {
        Ty(Box::new(TyKind::Any))
    }

    pub fn mk_integer(&self) -> (r: Ty)
        ensures
            r@ == TyTree::Integer,
    {
        Ty(Box::new(TyKind::Integer))
    }

    pub fn mk_infer(&self) -> (r: Ty)
        ensures
            r@ == TyTree::Infer,
    {
        Ty(Box::new(TyKind::Infer))
    }

    pub fn mk_pending(&self) -> (r: Ty)
        ensures
            r@ == TyTree::Pending,
    {
        Ty(Box::new(TyKind::Pending))
    }

    pub fn mk_int(&self, i: IntTy) -> (r: Ty)
        ensures
            r@ == TyTree::Int(i),
    {
        Ty(Box::new(TyKind::Int(i)))
    }

    pub fn mk_uint(&self, u: UIntTy) -> (r: Ty)
        ensures
            r@ == TyTree::UInt(u),
    {
        Ty(Box::new(TyKind::UInt(u)))
    }

    pub fn mk_float(&self, f: FloatTy) -> (r: Ty)
        ensures
            r@ == TyTree::Float(f),
    {
        Ty(Box::new(TyKind::Float(f)))
    }

    pub fn mk_nullable(&self, inner: Ty) -> (r: Ty)
        ensures
            r@ == TyTree::Nullable(Box::new(inner@)),
    {
        Ty(Box::new(TyKind::Nullable(inner)))
    }

    pub fn mk_array(&self, elem: Ty) -> (r: Ty)
        ensures
            r@ == TyTree::Array(Box::new(elem@)),
    {
        Ty(Box::new(TyKind::Array(elem)))
    }

    pub fn mk_tuple(&self, elems: Vec<Ty>) -> (r: Ty)
        ensures
            r@ == TyTree::Tuple(tys_view(elems@)),
    {
        let r = Ty(Box::new(TyKind::Tuple(elems)));
        assert(match r@ { TyTree::Tuple(s) => s =~= tys_view(elems@), _ => false });
        r
    }

    pub fn mk_func(&self, params: Vec<Ty>, ret: Ty) -> (r: Ty)
        ensures
            r@ == TyTree::Func(tys_view(params@), Box::new(ret@)),
    {
        let r = Ty(Box::new(TyKind::Func(FuncTy { params, ret })));
        assert(match r@ { TyTree::Func(s, _) => s =~= tys_view(params@), _ => false });
        r
    }

    pub fn mk_param(&self, id: ParamId) -> (r: Ty)
        ensures
            r@ == TyTree::Param(id.0),
    {
        Ty(Box::new(TyKind::Param(id)))
    }

    pub fn mk_var(&self, id: VarId) -> (r: Ty)
        ensures
            r@ == TyTree::Var(id.0),
    {
        Ty(Box::new(TyKind::Var(id)))
    }

    pub fn mk_error(&self, err: ErrGuaranteed) -> (r: Ty)
        ensures
            r@ == TyTree::Error,
    {
        Ty(Box::new(TyKind::Error(err)))
    }
}

} // verus!
