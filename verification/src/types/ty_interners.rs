//! The common types, made once and handed out by the type context.
use vstd::prelude::*;

use crate::types::ty::{FloatTy, IntTy, Ty, TyKind, TyTree, UIntTy};

verus! {

#[derive(Debug)]
pub struct CommonTypes {
    // Top and bottom types
    pub never: Ty,
    pub opt_never: Ty,
    pub any: Ty,
    pub opt_any: Ty,
    // Bool
    pub bool: Ty,
    pub opt_bool: Ty,
    // Integers
    pub int8: Ty,
    pub opt_int8: Ty,
    pub int16: Ty,
    pub opt_int16: Ty,
    pub int32: Ty,
    pub opt_int32: Ty,
    pub int64: Ty,
    pub opt_int64: Ty,
    pub uint8: Ty,
    pub opt_uint8: Ty,
    pub uint16: Ty,
    pub opt_uint16: Ty,
    pub uint32: Ty,
    pub opt_uint32: Ty,
    pub uint64: Ty,
    pub opt_uint64: Ty,
    pub integer: Ty,
    pub opt_integer: Ty,
    // Floats
    pub float32: Ty,
    pub opt_float32: Ty,
    pub float64: Ty,
    pub opt_float64: Ty,
    // String
    pub str: Ty,
    pub opt_str: Ty,
    // Empty compound types
    pub empty_array: Ty,
    pub opt_empty_array: Ty,
    pub empty_tuple: Ty,
    pub opt_empty_tuple: Ty,
    // Sentinel types
    pub infer: Ty,
    pub opt_infer: Ty,
    pub pending: Ty,
    pub opt_pending: Ty,
}

/// A nullable tree.
pub open spec fn opt(t: TyTree) -> TyTree {
    TyTree::Nullable(Box::new(t))
}

impl CommonTypes {
    /// Each common type, and its nullable form, is the tree its name says.
    pub open spec fn wf(&self) -> bool {
        &&& self.never@ == TyTree::Never
        &&& self.opt_never@ == opt(TyTree::Never)
        &&& self.any@ == TyTree::Any
        &&& self.opt_any@ == opt(TyTree::Any)
        &&& self.bool@ == TyTree::Bool
        &&& self.opt_bool@ == opt(TyTree::Bool)
        &&& self.int8@ == TyTree::Int(IntTy::Int8)
        &&& self.opt_int8@ == opt(TyTree::Int(IntTy::Int8))
        &&& self.int16@ == TyTree::Int(IntTy::Int16)
        &&& self.opt_int16@ == opt(TyTree::Int(IntTy::Int16))
        &&& self.int32@ == TyTree::Int(IntTy::Int32)
        &&& self.opt_int32@ == opt(TyTree::Int(IntTy::Int32))
        &&& self.int64@ == TyTree::Int(IntTy::Int64)
        &&& self.opt_int64@ == opt(TyTree::Int(IntTy::Int64))
        &&& self.uint8@ == TyTree::UInt(UIntTy::UInt8)
        &&& self.opt_uint8@ == opt(TyTree::UInt(UIntTy::UInt8))
        &&& self.uint16@ == TyTree::UInt(UIntTy::UInt16)
        &&& self.opt_uint16@ == opt(TyTree::UInt(UIntTy::UInt16))
        &&& self.uint32@ == TyTree::UInt(UIntTy::UInt32)
        &&& self.opt_uint32@ == opt(TyTree::UInt(UIntTy::UInt32))
        &&& self.uint64@ == TyTree::UInt(UIntTy::UInt64)
        &&& self.opt_uint64@ == opt(TyTree::UInt(UIntTy::UInt64))
        &&& self.integer@ == TyTree::Integer
        &&& self.opt_integer@ == opt(TyTree::Integer)
        &&& self.float32@ == TyTree::Float(FloatTy::Float32)
        &&& self.opt_float32@ == opt(TyTree::Float(FloatTy::Float32))
        &&& self.float64@ == TyTree::Float(FloatTy::Float64)
        &&& self.opt_float64@ == opt(TyTree::Float(FloatTy::Float64))
        &&& self.str@ == TyTree::Str
        &&& self.opt_str@ == opt(TyTree::Str)
        &&& self.empty_array@ == TyTree::Array(Box::new(TyTree::Never))
        &&& self.opt_empty_array@ == opt(TyTree::Array(Box::new(TyTree::Never)))
        &&& self.empty_tuple@ == TyTree::Tuple(Seq::empty())
        &&& self.opt_empty_tuple@ == opt(TyTree::Tuple(Seq::empty()))
        &&& self.infer@ == TyTree::Infer
        &&& self.opt_infer@ == opt(TyTree::Infer)
        &&& self.pending@ == TyTree::Pending
        &&& self.opt_pending@ == opt(TyTree::Pending)
    }

    pub fn new() -> (r: CommonTypes)
        ensures
            r.wf(),
    {
        let never = Ty(Box::new(TyKind::Never));
        let opt_never = Ty(Box::new(TyKind::Nullable(Ty(Box::new(TyKind::Never)))));
        let any = Ty(Box::new(TyKind::Any));
        let opt_any = Ty(Box::new(TyKind::Nullable(Ty(Box::new(TyKind::Any)))));
        let bool = Ty(Box::new(TyKind::Bool));
        let opt_bool = Ty(Box::new(TyKind::Nullable(Ty(Box::new(TyKind::Bool)))));
        let int8 = Ty(Box::new(TyKind::Int(IntTy::Int8)));
        let opt_int8 = Ty(Box::new(TyKind::Nullable(Ty(Box::new(TyKind::Int(IntTy::Int8))))));
        let int16 = Ty(Box::new(TyKind::Int(IntTy::Int16)));
        let opt_int16 = Ty(Box::new(TyKind::Nullable(Ty(Box::new(TyKind::Int(IntTy::Int16))))));
        let int32 = Ty(Box::new(TyKind::Int(IntTy::Int32)));
        let opt_int32 = Ty(Box::new(TyKind::Nullable(Ty(Box::new(TyKind::Int(IntTy::Int32))))));
        let int64 = Ty(Box::new(TyKind::Int(IntTy::Int64)));
        let opt_int64 = Ty(Box::new(TyKind::Nullable(Ty(Box::new(TyKind::Int(IntTy::Int64))))));
        let uint8 = Ty(Box::new(TyKind::UInt(UIntTy::UInt8)));
        let opt_uint8 = Ty(Box::new(TyKind::Nullable(Ty(Box::new(TyKind::UInt(UIntTy::UInt8))))));
        let uint16 = Ty(Box::new(TyKind::UInt(UIntTy::UInt16)));
        let opt_uint16 = Ty(Box::new(TyKind::Nullable(Ty(Box::new(TyKind::UInt(UIntTy::UInt16))))));
        let uint32 = Ty(Box::new(TyKind::UInt(UIntTy::UInt32)));
        let opt_uint32 = Ty(Box::new(TyKind::Nullable(Ty(Box::new(TyKind::UInt(UIntTy::UInt32))))));
        let uint64 = Ty(Box::new(TyKind::UInt(UIntTy::UInt64)));
        let opt_uint64 = Ty(Box::new(TyKind::Nullable(Ty(Box::new(TyKind::UInt(UIntTy::UInt64))))));
        let integer = Ty(Box::new(TyKind::Integer));
        let opt_integer = Ty(Box::new(TyKind::Nullable(Ty(Box::new(TyKind::Integer)))));
        let float32 = Ty(Box::new(TyKind::Float(FloatTy::Float32)));
        let opt_float32 = Ty(Box::new(TyKind::Nullable(Ty(Box::new(TyKind::Float(FloatTy::Float32))))));
        let float64 = Ty(Box::new(TyKind::Float(FloatTy::Float64)));
        let opt_float64 = Ty(Box::new(TyKind::Nullable(Ty(Box::new(TyKind::Float(FloatTy::Float64))))));
        let str = Ty(Box::new(TyKind::Str));
        let opt_str = Ty(Box::new(TyKind::Nullable(Ty(Box::new(TyKind::Str)))));
        let empty_array = Ty(Box::new(TyKind::Array(Ty(Box::new(TyKind::Never)))));
        let opt_empty_array = Ty(Box::new(TyKind::Nullable(Ty(Box::new(TyKind::Array(Ty(Box::new(TyKind::Never))))))));
        let empty_tuple = Ty(Box::new(TyKind::Tuple(Vec::new())));
        let opt_empty_tuple = Ty(Box::new(TyKind::Nullable(empty_tuple.deep_clone())));
        let infer = Ty(Box::new(TyKind::Infer));
        let opt_infer = Ty(Box::new(TyKind::Nullable(Ty(Box::new(TyKind::Infer)))));
        let pending = Ty(Box::new(TyKind::Pending));
        let opt_pending = Ty(Box::new(TyKind::Nullable(Ty(Box::new(TyKind::Pending)))));
        proof {
            assert(match empty_tuple@ { TyTree::Tuple(s) => s =~= Seq::<TyTree>::empty(), _ => false });
        }
        CommonTypes {
            never,
            opt_never,
            any,
            opt_any,
            bool,
            opt_bool,
            int8,
            opt_int8,
            int16,
            opt_int16,
            int32,
            opt_int32,
            int64,
            opt_int64,
            uint8,
            opt_uint8,
            uint16,
            opt_uint16,
            uint32,
            opt_uint32,
            uint64,
            opt_uint64,
            integer,
            opt_integer,
            float32,
            opt_float32,
            float64,
            opt_float64,
            str,
            opt_str,
            empty_array,
            opt_empty_array,
            empty_tuple,
            opt_empty_tuple,
            infer,
            opt_infer,
            pending,
            opt_pending,
        }
    }

    /// Returns the unit type, which is the value of a block or function that produces no value.
    pub fn unit(&self) -> (r: Ty)
        ensures
            r@ == self.empty_tuple@,
    {
        self.empty_tuple.deep_clone()
    }
}

} // verus!
