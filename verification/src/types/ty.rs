//! Types of the language, as trees, and their mathematical model.
use vstd::prelude::*;

use crate::ast::Ident;
use crate::diagnostics::ErrGuaranteed;
use crate::interner::{Index, SymTable};
use crate::text::{decimal, push_decimal};
use crate::vm::instr::Width;

verus! {

#[derive(Clone, Copy, PartialEq, Eq, Structural, PartialOrd, Ord, Hash, Debug)]
pub enum IntTy {
    Int8,
    Int16,
    Int32,
    Int64,
}

#[derive(Clone, Copy, PartialEq, Eq, Structural, PartialOrd, Ord, Hash, Debug)]
pub enum UIntTy {
    UInt8,
    UInt16,
    UInt32,
    UInt64,
}

#[derive(Clone, Copy, PartialEq, Eq, Structural, PartialOrd, Ord, Hash, Debug)]
pub enum FloatTy {
    Float32,
    Float64,
}

impl IntTy {
    /// Position in the declaration order, which is the order of widths.
    pub open spec fn rank(self) -> nat {
        match self {
            IntTy::Int8 => 0,
            IntTy::Int16 => 1,
            IntTy::Int32 => 2,
            IntTy::Int64 => 3,
        }
    }

    pub fn width(self) -> (w: Width)
        ensures
            w.rank() == self.rank(),
    {
        match self {
            Self::Int8 => Width::_8,
            Self::Int16 => Width::_16,
            Self::Int32 => Width::_32,
            Self::Int64 => Width::_64,
        }
    }
}

impl UIntTy {
    /// Position in the declaration order, which is the order of widths.
    pub open spec fn rank(self) -> nat {
        match self {
            UIntTy::UInt8 => 0,
            UIntTy::UInt16 => 1,
            UIntTy::UInt32 => 2,
            UIntTy::UInt64 => 3,
        }
    }

    pub fn width(self) -> (w: Width)
        ensures
            w.rank() == self.rank(),
    {
        match self {
            Self::UInt8 => Width::_8,
            Self::UInt16 => Width::_16,
            Self::UInt32 => Width::_32,
            Self::UInt64 => Width::_64,
        }
    }
}

impl FloatTy {
    /// Position in the declaration order, which is the order of widths.
    pub open spec fn rank(self) -> nat {
        match self {
            FloatTy::Float32 => 0,
            FloatTy::Float64 => 1,
        }
    }

    pub fn width(self) -> (w: Width)
        ensures
            w.rank() == self.rank() + 2,
    {
        match self {
            Self::Float32 => Width::_32,
            Self::Float64 => Width::_64,
        }
    }
}

impl IntTy {
    pub(crate) fn rank_exec(self) -> (r: u8)
        ensures
            r == self.rank(),
    {
        match self {
            Self::Int8 => 0,
            Self::Int16 => 1,
            Self::Int32 => 2,
            Self::Int64 => 3,
        }
    }
}

impl UIntTy {
    pub(crate) fn rank_exec(self) -> (r: u8)
        ensures
            r == self.rank(),
    {
        match self {
            Self::UInt8 => 0,
            Self::UInt16 => 1,
            Self::UInt32 => 2,
            Self::UInt64 => 3,
        }
    }
}

impl FloatTy {
    pub(crate) fn rank_exec(self) -> (r: u8)
        ensures
            r == self.rank(),
    {
        match self {
            Self::Float32 => 0,
            Self::Float64 => 1,
        }
    }
}

/// A type parameter, by its position in the parameter list.
#[derive(Clone, Copy, PartialEq, Eq, Structural, PartialOrd, Ord, Hash, Debug)]
pub struct ParamId(pub u32);

/// An inference variable, by its number.
#[derive(Clone, Copy, PartialEq, Eq, Structural, PartialOrd, Ord, Hash, Debug)]
pub struct VarId(pub u32);

/// A type of the language.
#[derive(Debug)]
pub struct Ty(pub Box<TyKind>);

#[derive(Debug)]
pub enum TyKind {
    Never,
    Bool,
    Int(IntTy),
    UInt(UIntTy),
    Integer,
    Float(FloatTy),
    Str,
    Nullable(Ty),
    Array(Ty),
    Tuple(Vec<Ty>),
    Func(FuncTy),
    Any,
    Param(ParamId),
    Var(VarId),
    Infer,
    Pending,
    Error(ErrGuaranteed),
}

#[derive(Debug)]
pub struct FuncTy {
    pub params: Vec<Ty>,
    pub ret: Ty,
}

/// The mathematical value of a type: the tree it stands for, with the
/// elements of a tuple and the parameters of a function as sequences.
pub enum TyTree {
    Never,
    Bool,
    Int(IntTy),
    UInt(UIntTy),
    Integer,
    Float(FloatTy),
    Str,
    Nullable(Box<TyTree>),
    Array(Box<TyTree>),
    Tuple(Seq<TyTree>),
    Func(Seq<TyTree>, Box<TyTree>),
    Any,
    Param(u32),
    Var(u32),
    Infer,
    Pending,
    Error,
}

/// The tree of a type kind.
pub open spec fn kind_view(k: TyKind) -> TyTree
    decreases k,
{
    match k {
        TyKind::Never => TyTree::Never,
        TyKind::Bool => TyTree::Bool,
        TyKind::Int(i) => TyTree::Int(i),
        TyKind::UInt(u) => TyTree::UInt(u),
        TyKind::Integer => TyTree::Integer,
        TyKind::Float(f) => TyTree::Float(f),
        TyKind::Str => TyTree::Str,
        TyKind::Nullable(t) => TyTree::Nullable(Box::new(kind_view(*t.0))),
        TyKind::Array(t) => TyTree::Array(Box::new(kind_view(*t.0))),
        TyKind::Tuple(v) => TyTree::Tuple(
            Seq::new(
                v@.len(),
                |i: int|
                    if 0 <= i < v@.len() {
                        kind_view(*v@[i].0)
                    } else {
                        TyTree::Never
                    },
            ),
        ),
        TyKind::Func(f) => TyTree::Func(
            Seq::new(
                f.params@.len(),
                |i: int|
                    if 0 <= i < f.params@.len() {
                        kind_view(*f.params@[i].0)
                    } else {
                        TyTree::Never
                    },
            ),
            Box::new(kind_view(*f.ret.0)),
        ),
        TyKind::Any => TyTree::Any,
        TyKind::Param(p) => TyTree::Param(p.0),
        TyKind::Var(v) => TyTree::Var(v.0),
        TyKind::Infer => TyTree::Infer,
        TyKind::Pending => TyTree::Pending,
        TyKind::Error(_) => TyTree::Error,
    }
}

impl View for TyKind {
    type V = TyTree;

    open spec fn view(&self) -> TyTree {
        kind_view(*self)
    }
}

impl View for Ty {
    type V = TyTree;

    open spec fn view(&self) -> TyTree {
        kind_view(*self.0)
    }
}

/// The trees of a sequence of types.
pub open spec fn tys_view(s: Seq<Ty>) -> Seq<TyTree> {
    s.map_values(|t: Ty| t@)
}

/// The number of nodes of a tree.
pub open spec fn size(t: TyTree) -> nat
    decreases t,
{
    match t {
        TyTree::Nullable(a) => 1 + size(*a),
        TyTree::Array(a) => 1 + size(*a),
        TyTree::Tuple(s) => 1 + sizes(s),
        TyTree::Func(p, r) => 1 + sizes(p) + size(*r),
        _ => 1,
    }
}

/// The number of nodes of a sequence of trees.
pub open spec fn sizes(s: Seq<TyTree>) -> nat
    decreases s,
{
    if s.len() == 0 {
        0
    } else {
        sizes(s.drop_last()) + size(s.last())
    }
}

pub proof fn lemma_sizes_elem(s: Seq<TyTree>, i: int)
    requires
        0 <= i < s.len(),
    ensures
        size(s[i]) <= sizes(s),
    decreases s.len(),
{
    if i < s.len() - 1 {
        lemma_sizes_elem(s.drop_last(), i);
    }
}

pub proof fn lemma_size_pos(t: TyTree)
    ensures
        size(t) >= 1,
{
}

pub proof fn lemma_sizes_len(s: Seq<TyTree>)
    ensures
        s.len() <= sizes(s),
    decreases s.len(),
{
    if s.len() > 0 {
        lemma_sizes_len(s.drop_last());
        lemma_size_pos(s.last());
    }
}

impl Ty {
    /// A copy of the whole tree.
    pub fn deep_clone(&self) -> (r: Ty)
        ensures
            r@ == self@,
        decreases self,
    {
        Ty(Box::new(clone_kind(&self.0)))
    }
}

impl Clone for Ty {
    fn clone(&self) -> (r: Self)
        ensures
            r@ == self@,
    {
        self.deep_clone()
    }
}

impl Clone for TyKind {
    fn clone(&self) -> (r: Self)
        ensures
            r@ == self@,
    {
        clone_kind(self)
    }
}

impl Clone for FuncTy {
    fn clone(&self) -> (r: Self)
        ensures
            tys_view(r.params@) == tys_view(self.params@),
            r.ret@ == self.ret@,
    {
        FuncTy { params: clone_tys(&self.params), ret: self.ret.deep_clone() }
    }
}

fn clone_kind(k: &TyKind) -> (r: TyKind)
    ensures
        r@ == k@,
    decreases k,
{
    match k {
        TyKind::Never => TyKind::Never,
        TyKind::Bool => TyKind::Bool,
        TyKind::Int(i) => TyKind::Int(*i),
        TyKind::UInt(u) => TyKind::UInt(*u),
        TyKind::Integer => TyKind::Integer,
        TyKind::Float(f) => TyKind::Float(*f),
        TyKind::Str => TyKind::Str,
        TyKind::Nullable(t) => TyKind::Nullable(t.deep_clone()),
        TyKind::Array(t) => TyKind::Array(t.deep_clone()),
        TyKind::Tuple(v) => {
            let c = clone_tys(v);
            proof {
                assert(kind_view(TyKind::Tuple(c)) == kind_view(*k)) by {
                    assert(tys_view(c@) =~= tys_view(v@));
                    assert(match kind_view(TyKind::Tuple(c)) { TyTree::Tuple(s) => s =~= tys_view(c@), _ => false });
                    assert(match kind_view(*k) { TyTree::Tuple(s) => s =~= tys_view(v@), _ => false });
                }
            }
            TyKind::Tuple(c)
        },
        TyKind::Func(f) => {
            let c = clone_tys(&f.params);
            let r = f.ret.deep_clone();
            let res = TyKind::Func(FuncTy { params: c, ret: r });
            proof {
                assert(kind_view(res) == kind_view(*k)) by {
                    assert(match kind_view(res) { TyTree::Func(s, _) => s =~= tys_view(c@), _ => false });
                    assert(match kind_view(*k) { TyTree::Func(s, _) => s =~= tys_view(f.params@), _ => false });
                }
            }
            res
        },
        TyKind::Any => TyKind::Any,
        TyKind::Param(p) => TyKind::Param(*p),
        TyKind::Var(v) => TyKind::Var(*v),
        TyKind::Infer => TyKind::Infer,
        TyKind::Pending => TyKind::Pending,
        TyKind::Error(e) => TyKind::Error(*e),
    }
}

/// Copies a list of types.
pub fn clone_tys(v: &Vec<Ty>) -> (r: Vec<Ty>)
    ensures
        tys_view(r@) == tys_view(v@),
    decreases v,
{
    let mut r: Vec<Ty> = Vec::new();
    let mut i: usize = 0;
    while i < v.len()
        invariant
            i <= v.len(),
            r@.len() == i,
            forall|j: int| 0 <= j < i ==> r@[j]@ == v@[j]@,
        decreases v.len() - i,
    {
        r.push(v[i].deep_clone());
        i = i + 1;
    }
    assert(tys_view(r@) =~= tys_view(v@));
    r
}

/// Whether `leaf` is a node of `t`.
pub open spec fn occurs(t: TyTree, leaf: TyTree) -> bool
    decreases t,
{
    t == leaf || match t {
        TyTree::Nullable(a) => occurs(*a, leaf),
        TyTree::Array(a) => occurs(*a, leaf),
        TyTree::Tuple(s) => exists|i: int| 0 <= i < s.len() && occurs(s[i], leaf),
        TyTree::Func(p, r) => (exists|i: int| 0 <= i < p.len() && occurs(p[i], leaf)) || occurs(
            *r,
            leaf,
        ),
        _ => false,
    }
}

/// The element type of an array type; `None` for every other kind of
/// type, a nullable array among them.
pub open spec fn array_elem_spec(t: TyTree) -> Option<TyTree> {
    match t {
        TyTree::Array(inner) => Some(*inner),
        _ => None,
    }
}

/// The element types of a tuple type; `None` for every other kind of
/// type, a nullable tuple among them.
pub open spec fn tuple_elems_spec(t: TyTree) -> Option<Seq<TyTree>> {
    match t {
        TyTree::Tuple(elems) => Some(elems),
        _ => None,
    }
}

/// Structural equality of two types.
pub fn ty_eq(a: &Ty, b: &Ty) -> (r: bool)
    ensures
        r == (a@ == b@),
    decreases a,
{
    match (&*a.0, &*b.0) {
        (TyKind::Never, TyKind::Never) => true,
        (TyKind::Bool, TyKind::Bool) => true,
        (TyKind::Int(x), TyKind::Int(y)) => *x == *y,
        (TyKind::UInt(x), TyKind::UInt(y)) => *x == *y,
        (TyKind::Integer, TyKind::Integer) => true,
        (TyKind::Float(x), TyKind::Float(y)) => *x == *y,
        (TyKind::Str, TyKind::Str) => true,
        (TyKind::Nullable(x), TyKind::Nullable(y)) => ty_eq(x, y),
        (TyKind::Array(x), TyKind::Array(y)) => ty_eq(x, y),
        (TyKind::Tuple(x), TyKind::Tuple(y)) => {
            let r = tys_eq(x, y);
            proof {
                assert(match a@ { TyTree::Tuple(s) => s =~= tys_view(x@), _ => false });
                assert(match b@ { TyTree::Tuple(s) => s =~= tys_view(y@), _ => false });
            }
            r
        },
        (TyKind::Func(x), TyKind::Func(y)) => {
            let r = tys_eq(&x.params, &y.params) && ty_eq(&x.ret, &y.ret);
            proof {
                assert(match a@ { TyTree::Func(s, _) => s =~= tys_view(x.params@), _ => false });
                assert(match b@ { TyTree::Func(s, _) => s =~= tys_view(y.params@), _ => false });
            }
            r
        },
        (TyKind::Any, TyKind::Any) => true,
        (TyKind::Param(x), TyKind::Param(y)) => x.0 == y.0,
        (TyKind::Var(x), TyKind::Var(y)) => x.0 == y.0,
        (TyKind::Infer, TyKind::Infer) => true,
        (TyKind::Pending, TyKind::Pending) => true,
        (TyKind::Error(_), TyKind::Error(_)) => true,
        _ => false,
    }
}

/// Element-wise structural equality of two lists of types.
pub fn tys_eq(a: &Vec<Ty>, b: &Vec<Ty>) -> (r: bool)
    ensures
        r == (tys_view(a@) == tys_view(b@)),
    decreases a,
{
    if a.len() != b.len() {
        assert(tys_view(a@).len() != tys_view(b@).len());
        return false;
    }
    let mut i: usize = 0;
    while i < a.len()
        invariant
            i <= a.len(),
            a.len() == b.len(),
            forall|j: int| 0 <= j < i ==> a@[j]@ == b@[j]@,
        decreases a.len() - i,
    {
        if !ty_eq(&a[i], &b[i]) {
            assert(tys_view(a@)[i as int] != tys_view(b@)[i as int]);
            return false;
        }
        i = i + 1;
    }
    assert(tys_view(a@) =~= tys_view(b@));
    true
}

impl PartialEq for Ty {
    fn eq(&self, other: &Self) -> (r: bool) {
        ty_eq(self, other)
    }
}

impl vstd::std_specs::cmp::PartialEqSpecImpl for Ty {
    open spec fn obeys_eq_spec() -> bool {
        true
    }

    open spec fn eq_spec(&self, other: &Self) -> bool {
        self@ == other@
    }
}

impl Eq for Ty {
}

/// Whether `leaf` occurs in a type; `leaf` is `Pending` or `Infer`.
fn contains_leaf(t: &Ty, pending: bool) -> (r: bool)
    ensures
        r == occurs(t@, if pending { TyTree::Pending } else { TyTree::Infer }),
    decreases t,
{
    let ghost leaf = if pending { TyTree::Pending } else { TyTree::Infer };
    match &*t.0 {
        TyKind::Pending => pending,
        TyKind::Infer => !pending,
        TyKind::Nullable(x) => contains_leaf(x, pending),
        TyKind::Array(x) => contains_leaf(x, pending),
        TyKind::Tuple(v) => {
            let r = any_contains_leaf(v, pending);
            proof {
                assert(match t@ { TyTree::Tuple(s) => s =~= tys_view(v@), _ => false });
            }
            r
        },
        TyKind::Func(f) => {
            let r = any_contains_leaf(&f.params, pending) || contains_leaf(&f.ret, pending);
            proof {
                assert(match t@ { TyTree::Func(s, _) => s =~= tys_view(f.params@), _ => false });
            }
            r
        },
        _ => false,
    }
}

fn any_contains_leaf(v: &Vec<Ty>, pending: bool) -> (r: bool)
    ensures
        r == exists|i: int|
            0 <= i < v@.len() && occurs(
                #[trigger] tys_view(v@)[i],
                if pending { TyTree::Pending } else { TyTree::Infer },
            ),
    decreases v,
{
    let ghost leaf = if pending { TyTree::Pending } else { TyTree::Infer };
    let mut i: usize = 0;
    while i < v.len()
        invariant
            i <= v.len(),
            leaf == (if pending { TyTree::Pending } else { TyTree::Infer }),
            forall|j: int| 0 <= j < i ==> !occurs(#[trigger] tys_view(v@)[j], leaf),
        decreases v.len() - i,
    {
        if contains_leaf(&v[i], pending) {
            assert(occurs(tys_view(v@)[i as int], leaf));
            return true;
        }
        i = i + 1;
    }
    false
}

impl Ty {
    /// The kind of the type.
    pub fn kind(&self) -> (k: TyKind)
        ensures
            k@ == self@,
    {
        clone_kind(&self.0)
    }

    /// Whether the type is the empty tuple.
    pub fn is_unit(&self) -> (r: bool)
        ensures
            r == (self@ matches TyTree::Tuple(s) && s.len() == 0),
    {
        match &*self.0 {
            TyKind::Tuple(elems) => elems.len() == 0,
            _ => false,
        }
    }

    pub fn is_never(&self) -> (r: bool)
        ensures
            r == (self@ is Never),
    {
        match &*self.0 {
            TyKind::Never => true,
            _ => false,
        }
    }

    pub fn is_err(&self) -> (r: bool)
        ensures
            r == (self@ is Error),
    {
        match &*self.0 {
            TyKind::Error(_) => true,
            _ => false,
        }
    }

    /// Returns `true` if no constituents of the type are `Pending`
    pub fn is_final(&self) -> (r: bool)
        ensures
            r == !occurs(self@, TyTree::Pending),
    {
        !contains_leaf(self, true)
    }

    /// Returns `true` if any constituents of the type are `Infer`
    pub fn has_infer(&self) -> (r: bool)
        ensures
            r == occurs(self@, TyTree::Infer),
    {
        contains_leaf(self, false)
    }

    /// If the type is an array, returns its element type, otherwise `None`
    pub fn array_elem(&self) -> (r: Option<Ty>)
        ensures
            match (r, array_elem_spec(self@)) {
                (Some(t), Some(e)) => t@ == e,
                (None, None) => true,
                _ => false,
            },
    {
        match &*self.0 {
            TyKind::Array(inner) => Some(inner.deep_clone()),
            _ => None,
        }
    }

    /// If the type is a tuple, returns its element types, otherwise `None`
    pub fn tuple_elems(&self) -> (r: Option<&[Ty]>)
        ensures
            match (r, tuple_elems_spec(self@)) {
                (Some(s), Some(e)) => tys_view(s@) == e,
                (None, None) => true,
                _ => false,
            },
    {
        match &*self.0 {
            TyKind::Tuple(inner) => {
                proof {
                    assert(match self@ { TyTree::Tuple(s) => s =~= tys_view(inner@), _ => false });
                }
                Some(inner.as_slice())
            },
            _ => None,
        }
    }
}

/// The tree of a tuple or function type in terms of its lists of types.
pub proof fn lemma_view_lists(t: Ty)
    ensures
        match *t.0 {
            TyKind::Tuple(v) => t@ == TyTree::Tuple(tys_view(v@)),
            TyKind::Func(f) => t@ == TyTree::Func(tys_view(f.params@), Box::new(f.ret@)),
            _ => true,
        },
{
    match *t.0 {
        TyKind::Tuple(v) => {
            assert(match t@ { TyTree::Tuple(s) => s =~= tys_view(v@), _ => false });
        },
        TyKind::Func(f) => {
            assert(match t@ { TyTree::Func(s, _) => s =~= tys_view(f.params@), _ => false });
        },
        _ => {},
    }
}

/// Texts joined with `, ` between them.
pub open spec fn comma_join(parts: Seq<Seq<char>>) -> Seq<char>
    decreases parts.len(),
{
    if parts.len() == 0 {
        Seq::empty()
    } else if parts.len() == 1 {
        parts[0]
    } else {
        comma_join(parts.drop_last()) + ", "@ + parts.last()
    }
}

/// How a type is written, with `names` the names of the type parameters.
pub open spec fn ty_text(t: TyTree, names: Seq<Seq<char>>) -> Seq<char>
    decreases t,
{
    match t {
        TyTree::Never => "never"@,
        TyTree::Bool => "bool"@,
        TyTree::Int(IntTy::Int8) => "int8"@,
        TyTree::Int(IntTy::Int16) => "int16"@,
        TyTree::Int(IntTy::Int32) => "int32"@,
        TyTree::Int(IntTy::Int64) => "int64"@,
        TyTree::UInt(UIntTy::UInt8) => "uint8"@,
        TyTree::UInt(UIntTy::UInt16) => "uint16"@,
        TyTree::UInt(UIntTy::UInt32) => "uint32"@,
        TyTree::UInt(UIntTy::UInt64) => "uint64"@,
        TyTree::Integer => "int"@,
        TyTree::Float(FloatTy::Float32) => "float32"@,
        TyTree::Float(FloatTy::Float64) => "float64"@,
        TyTree::Str => "str"@,
        TyTree::Nullable(inner) => if *inner is Never {
            "null"@
        } else {
            ty_text(*inner, names) + "?"@
        },
        TyTree::Array(inner) => "["@ + ty_text(*inner, names) + "]"@,
        TyTree::Tuple(elems) => "("@ + comma_join(tys_text(elems, names)) + ")"@,
        TyTree::Func(params, ret) => if *ret matches TyTree::Tuple(e) && e.len() == 0 {
            "fn("@ + comma_join(tys_text(params, names)) + ")"@
        } else {
            "fn("@ + comma_join(tys_text(params, names)) + ") -> "@ + ty_text(*ret, names)
        },
        TyTree::Any => "any"@,
        TyTree::Param(id) => if (id as int) < names.len() {
            names[id as int]
        } else {
            "$"@ + decimal(id as nat)
        },
        TyTree::Var(id) => "?"@ + decimal(id as nat),
        TyTree::Infer => "_"@,
        TyTree::Pending => "?"@,
        TyTree::Error => "{err}"@,
    }
}

/// How each of a sequence of types is written.
pub open spec fn tys_text(s: Seq<TyTree>, names: Seq<Seq<char>>) -> Seq<Seq<char>>
    decreases s,
{
    Seq::new(
        s.len(),
        |i: int|
            if 0 <= i < s.len() {
                ty_text(s[i], names)
            } else {
                Seq::empty()
            },
    )
}

proof fn lemma_comma_join_step(parts: Seq<Seq<char>>, i: int)
    requires
        0 <= i < parts.len(),
    ensures
        comma_join(parts.take(i + 1)) == if i == 0 {
            parts[0]
        } else {
            comma_join(parts.take(i)) + ", "@ + parts[i]
        },
{
    assert(parts.take(i + 1).drop_last() =~= parts.take(i));
}

/// A type together with what is needed to write its parameters' names.
pub struct TyWithCtx<'a> {
    pub ty: Ty,
    pub ty_params: &'a [Ident],
    pub sym_table: &'a SymTable,
}

impl<'a> TyWithCtx<'a> {
    /// The names of the type parameters.
    pub open spec fn names(&self) -> Seq<Seq<char>> {
        Seq::new(
            self.ty_params@.len(),
            |i: int| self.sym_table@[self.ty_params@[i].sym.index_of() as int],
        )
    }

    /// Every type parameter's name is in the table.
    pub open spec fn valid(&self) -> bool {
        forall|i: int|
            0 <= i < self.ty_params@.len() ==> (#[trigger] self.ty_params@[i]).sym.index_of()
                < self.sym_table@.len()
    }

    /// How the type is written.
    pub fn to_string(&self) -> (s: String)
        requires
            self.valid(),
        ensures
            s@ == ty_text(self.ty@, self.names()),
    {
        let mut s = String::new();
        self.write(&self.ty, &mut s);
        assert(s@ =~= ty_text(self.ty@, self.names()));
        s
    }

    fn write_list(&self, v: &Vec<Ty>, out: &mut String)
        requires
            self.valid(),
        ensures
            final(out)@ == old(out)@ + comma_join(tys_text(tys_view(v@), self.names())),
        decreases v,
    {
        let ghost texts = tys_text(tys_view(v@), self.names());
        let mut i: usize = 0;
        proof {
            assert(texts.take(0) =~= Seq::<Seq<char>>::empty());
        }
        while i < v.len()
            invariant
                i <= v.len(),
                self.valid(),
                texts == tys_text(tys_view(v@), self.names()),
                out@ == old(out)@ + comma_join(texts.take(i as int)),
            decreases v.len() - i,
        {
            proof {
                lemma_comma_join_step(texts, i as int);
            }
            if i > 0 {
                crate::text::push_str(out, ", ");
            }
            self.write(&v[i], out);
            i = i + 1;
        }
        proof {
            assert(texts.take(i as int) =~= texts);
        }
    }

    fn write(&self, t: &Ty, out: &mut String)
        requires
            self.valid(),
        ensures
            final(out)@ == old(out)@ + ty_text(t@, self.names()),
        decreases t,
    {
        proof {
            lemma_view_lists(*t);
        }
        let ghost names = self.names();
        match &*t.0 {
            TyKind::Never => crate::text::push_str(out, "never"),
            TyKind::Bool => crate::text::push_str(out, "bool"),
            TyKind::Int(IntTy::Int8) => crate::text::push_str(out, "int8"),
            TyKind::Int(IntTy::Int16) => crate::text::push_str(out, "int16"),
            TyKind::Int(IntTy::Int32) => crate::text::push_str(out, "int32"),
            TyKind::Int(IntTy::Int64) => crate::text::push_str(out, "int64"),
            TyKind::UInt(UIntTy::UInt8) => crate::text::push_str(out, "uint8"),
            TyKind::UInt(UIntTy::UInt16) => crate::text::push_str(out, "uint16"),
            TyKind::UInt(UIntTy::UInt32) => crate::text::push_str(out, "uint32"),
            TyKind::UInt(UIntTy::UInt64) => crate::text::push_str(out, "uint64"),
            TyKind::Integer => crate::text::push_str(out, "int"),
            TyKind::Float(FloatTy::Float32) => crate::text::push_str(out, "float32"),
            TyKind::Float(FloatTy::Float64) => crate::text::push_str(out, "float64"),
            TyKind::Str => crate::text::push_str(out, "str"),
            TyKind::Nullable(inner) => {
                if inner.is_never() {
                    crate::text::push_str(out, "null");
                } else {
                    self.write(inner, out);
                    crate::text::push_str(out, "?");
                    assert(out@ =~= old(out)@ + ty_text(t@, names));
                }
            },
            TyKind::Array(inner) => {
                crate::text::push_str(out, "[");
                self.write(inner, out);
                crate::text::push_str(out, "]");
                assert(out@ =~= old(out)@ + ty_text(t@, names));
            },
            TyKind::Tuple(elems) => {
                crate::text::push_str(out, "(");
                self.write_list(elems, out);
                crate::text::push_str(out, ")");
                assert(out@ =~= old(out)@ + ty_text(t@, names));
            },
            TyKind::Func(f) => {
                crate::text::push_str(out, "fn(");
                self.write_list(&f.params, out);
                if f.ret.is_unit() {
                    crate::text::push_str(out, ")");
                } else {
                    crate::text::push_str(out, ") -> ");
                    self.write(&f.ret, out);
                }
                assert(out@ =~= old(out)@ + ty_text(t@, names));
            },
            TyKind::Any => crate::text::push_str(out, "any"),
            TyKind::Param(id) => {
                if (id.0 as usize) < self.ty_params.len() {
                    let name = self.sym_table.get_str(self.ty_params[id.0 as usize].sym);
                    crate::text::push_str(out, name);
                } else {
                    crate::text::push_str(out, "$");
                    push_decimal(out, id.0 as u64);
                    assert(out@ =~= old(out)@ + ty_text(t@, names));
                }
            },
            TyKind::Var(id) => {
                crate::text::push_str(out, "?");
                push_decimal(out, id.0 as u64);
                assert(out@ =~= old(out)@ + ty_text(t@, names));
            },
            TyKind::Infer => crate::text::push_str(out, "_"),
            TyKind::Pending => crate::text::push_str(out, "?"),
            TyKind::Error(_) => crate::text::push_str(out, "{err}"),
        }
    }
}

impl Ty {
    /// The type with what is needed to write its parameters' names.
    pub fn display_ctx<'a>(&self, ty_params: &'a [Ident], sym_table: &'a SymTable) -> (r:
        TyWithCtx<'a>)
        ensures
            r.ty@ == self@,
            r.ty_params == ty_params,
            r.sym_table == sym_table,
    {
        TyWithCtx { ty: self.deep_clone(), ty_params, sym_table }
    }

    /// The type in the context of another.
    pub fn with_ctx<'a>(&self, other: &TyWithCtx<'a>) -> (r: TyWithCtx<'a>)
        ensures
            r.ty@ == self@,
            r.ty_params == other.ty_params,
            r.sym_table == other.sym_table,
    {
        TyWithCtx { ty: self.deep_clone(), ty_params: other.ty_params, sym_table: other.sym_table }
    }

    /// How the type is written where no type parameter has a name.
    pub fn to_string(&self) -> (s: String)
        ensures
            s@ == ty_text(self@, Seq::empty()),
    {
        let table = SymTable::new();
        let params: Vec<Ident> = Vec::new();
        let ctx = self.display_ctx(params.as_slice(), &table);
        assert(ctx.names() =~= Seq::<Seq<char>>::empty());
        ctx.to_string()
    }
}

/// The sequences one after the other.
pub open spec fn concat_all<A>(parts: Seq<Seq<A>>) -> Seq<A>
    decreases parts.len(),
{
    if parts.len() == 0 {
        Seq::empty()
    } else {
        concat_all(parts.drop_last()) + parts.last()
    }
}

/// The nodes of a type in pre-order: the type itself, then the nodes of
/// its parts from left to right (a function's parameters before its
/// return type).
pub open spec fn preorder(t: Ty) -> Seq<Ty>
    decreases t,
{
    seq![t] + match *t.0 {
        TyKind::Nullable(a) => preorder(a),
        TyKind::Array(a) => preorder(a),
        TyKind::Tuple(v) => concat_all(preorder_parts(v)),
        TyKind::Func(f) => concat_all(preorder_parts(f.params)) + preorder(f.ret),
        _ => Seq::empty(),
    }
}

/// The pre-orders of each type of a list.
pub open spec fn preorder_parts(v: Vec<Ty>) -> Seq<Seq<Ty>>
    decreases v,
{
    Seq::new(
        v@.len(),
        |i: int|
            if 0 <= i < v@.len() {
                preorder(v@[i])
            } else {
                Seq::empty()
            },
    )
}

/// `res` is a possible result of folding `f` over `nodes` from `acc`.
pub open spec fn fold_rel<T, F: FnMut(T, &Ty) -> T>(f: F, acc: T, nodes: Seq<Ty>, res: T) -> bool
    decreases nodes.len(),
{
    if nodes.len() == 0 {
        res == acc
    } else {
        exists|mid: T|
            #[trigger] call_ensures(f, (acc, &nodes[0]), mid) && fold_rel(
                f,
                mid,
                nodes.drop_first(),
                res,
            )
    }
}

proof fn lemma_fold_rel_concat<T, F: FnMut(T, &Ty) -> T>(
    f: F,
    a: T,
    s1: Seq<Ty>,
    m: T,
    s2: Seq<Ty>,
    r: T,
)
    requires
        fold_rel(f, a, s1, m),
        fold_rel(f, m, s2, r),
    ensures
        fold_rel(f, a, s1 + s2, r),
    decreases s1.len(),
{
    if s1.len() == 0 {
        assert(s1 + s2 =~= s2);
    } else {
        let mid = choose|mid: T|
            #[trigger] call_ensures(f, (a, &s1[0]), mid) && fold_rel(f, mid, s1.drop_first(), m);
        lemma_fold_rel_concat(f, mid, s1.drop_first(), m, s2, r);
        assert((s1 + s2).drop_first() =~= s1.drop_first() + s2);
        assert((s1 + s2)[0] == s1[0]);
    }
}

proof fn lemma_fold_rel_empty<T, F: FnMut(T, &Ty) -> T>(f: F, a: T)
    ensures
        fold_rel(f, a, Seq::empty(), a),
{
}

impl Ty {
    /// Folds `visit` over the nodes of the type, in pre-order.
    pub fn fold<T, F: FnMut(T, &Ty) -> T>(&self, init: T, visit: &mut F) -> (r: T)
        requires
            forall|a: T, t: &Ty| call_requires(*old(visit), (a, t)),
        ensures
            *final(visit) == *old(visit),
            fold_rel(*old(visit), init, preorder(*self), r),
        decreases self,
    {
        let ghost f = *visit;
        let ghost nodes = preorder(*self);
        let ghost init_g = init;
        let accum = visit(init, self);
        let ghost a0 = accum;
        proof {
            assert(nodes[0] == *self);
        }
        let r = match &*self.0 {
            TyKind::Nullable(ty) => ty.fold(accum, visit),
            TyKind::Array(ty) => ty.fold(accum, visit),
            TyKind::Tuple(tys) => fold_all(tys, accum, visit),
            TyKind::Func(func) => {
                let a = fold_all(&func.params, accum, visit);
                let ghost a1 = a;
                let r = func.ret.fold(a, visit);
                proof {
                    lemma_fold_rel_concat(
                        f,
                        a0,
                        concat_all(preorder_parts(func.params)),
                        a1,
                        preorder(func.ret),
                        r,
                    );
                }
                r
            },
            _ => accum,
        };
        proof {
            assert(nodes.drop_first() =~= match *self.0 {
                TyKind::Nullable(a) => preorder(a),
                TyKind::Array(a) => preorder(a),
                TyKind::Tuple(v) => concat_all(preorder_parts(v)),
                TyKind::Func(f) => concat_all(preorder_parts(f.params)) + preorder(f.ret),
                _ => Seq::empty(),
            });
            assert(call_ensures(f, (init_g, &nodes[0]), a0));
            assert(fold_rel(f, a0, nodes.drop_first(), r));
        }
        r
    }

    /// Calls `visit` on each node of the type, in pre-order.
    pub fn visit<F: FnMut(&Ty)>(&self, visit: &mut F)
        requires
            forall|t: &Ty| call_requires(*old(visit), (t,)),
        ensures
            *final(visit) == *old(visit),
            visited(*old(visit), preorder(*self)),
        decreases self,
    {
        let ghost f = *visit;
        let ghost rest = preorder(*self).drop_first();
        visit(self);
        proof {
            lemma_visited_one(f, *self);
        }
        match &*self.0 {
            TyKind::Nullable(ty) => ty.visit(visit),
            TyKind::Array(ty) => ty.visit(visit),
            TyKind::Tuple(tys) => visit_all(tys, visit),
            TyKind::Func(func) => {
                visit_all(&func.params, visit);
                func.ret.visit(visit);
                proof {
                    lemma_visited_concat(f, concat_all(preorder_parts(func.params)), preorder(func.ret));
                }
            },
            _ => {},
        }
        proof {
            assert(rest =~= match *self.0 {
                TyKind::Nullable(a) => preorder(a),
                TyKind::Array(a) => preorder(a),
                TyKind::Tuple(v) => concat_all(preorder_parts(v)),
                TyKind::Func(g) => concat_all(preorder_parts(g.params)) + preorder(g.ret),
                _ => Seq::empty(),
            });
            assert(preorder(*self) =~= seq![*self] + rest);
            lemma_visited_concat(f, seq![*self], rest);
        }
    }
}

fn fold_all<T, F: FnMut(T, &Ty) -> T>(v: &Vec<Ty>, init: T, visit: &mut F) -> (r: T)
    requires
        forall|a: T, t: &Ty| call_requires(*old(visit), (a, t)),
    ensures
        *final(visit) == *old(visit),
        fold_rel(*old(visit), init, concat_all(preorder_parts(*v)), r),
    decreases v,
{
    let ghost f = *visit;
    let ghost parts = preorder_parts(*v);
    let mut acc = init;
    let mut i: usize = 0;
    proof {
        assert(parts.take(0) =~= Seq::<Seq<Ty>>::empty());
        lemma_fold_rel_empty(f, init);
    }
    while i < v.len()
        invariant
            i <= v.len(),
            *visit == f,
            forall|a: T, t: &Ty| call_requires(f, (a, t)),
            parts == preorder_parts(*v),
            fold_rel(f, init, concat_all(parts.take(i as int)), acc),
        decreases v.len() - i,
    {
        let ghost before = acc;
        acc = v[i].fold(acc, visit);
        proof {
            assert(parts.take(i as int + 1).drop_last() =~= parts.take(i as int));
            lemma_fold_rel_concat(f, init, concat_all(parts.take(i as int)), before, parts[i as int], acc);
        }
        i = i + 1;
    }
    proof {
        assert(parts.take(i as int) =~= parts);
    }
    acc
}

fn visit_all<F: FnMut(&Ty)>(v: &Vec<Ty>, visit: &mut F)
    requires
        forall|t: &Ty| call_requires(*old(visit), (t,)),
    ensures
        *final(visit) == *old(visit),
        visited(*old(visit), concat_all(preorder_parts(*v))),
    decreases v,
{
    let ghost f = *visit;
    let ghost parts = preorder_parts(*v);
    let mut i: usize = 0;
    proof {
        assert(parts.take(0) =~= Seq::<Seq<Ty>>::empty());
    }
    while i < v.len()
        invariant
            i <= v.len(),
            *visit == f,
            forall|t: &Ty| call_requires(f, (t,)),
            parts == preorder_parts(*v),
            visited(f, concat_all(parts.take(i as int))),
        decreases v.len() - i,
    {
        v[i].visit(visit);
        proof {
            assert(parts.take(i as int + 1).drop_last() =~= parts.take(i as int));
            lemma_visited_concat(f, concat_all(parts.take(i as int)), parts[i as int]);
        }
        i = i + 1;
    }
    proof {
        assert(parts.take(i as int) =~= parts);
    }
}

/// Each of `nodes` is an argument on which a call of `f` has returned, so
/// that what `f` ensures holds of each node.
pub open spec fn visited<F: FnMut(&Ty)>(f: F, nodes: Seq<Ty>) -> bool {
    forall|i: int| 0 <= i < nodes.len() ==> call_ensures(f, (&#[trigger] nodes[i],), ())
}

proof fn lemma_visited_one<F: FnMut(&Ty)>(f: F, t: Ty)
    requires
        call_ensures(f, (&t,), ()),
    ensures
        visited(f, seq![t]),
{
}

proof fn lemma_visited_concat<F: FnMut(&Ty)>(f: F, s1: Seq<Ty>, s2: Seq<Ty>)
    requires
        visited(f, s1),
        visited(f, s2),
    ensures
        visited(f, s1 + s2),
{
    assert forall|i: int| 0 <= i < (s1 + s2).len() implies call_ensures(f, (&#[trigger] (s1 + s2)[i],), ()) by {
        if i < s1.len() {
            assert((s1 + s2)[i] == s1[i]);
        } else {
            assert((s1 + s2)[i] == s2[i - s1.len()]);
        }
    }
}

} // verus!
