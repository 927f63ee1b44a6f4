//! The subtype lattice (meet and join), inference variables and their bounds,
//! and the reconciliation of an expected type with a provided one.
use vstd::prelude::*;

use crate::types::ty::{
    lemma_sizes_elem, lemma_view_lists, occurs, size, sizes, tys_view, FloatTy, IntTy, Ty, TyKind, TyTree,
    UIntTy,
};
use crate::types::ty_ctx::TyCtx;
use crate::text::push_str;
use crate::util::{args_text, elements_text, Args, Elements};

verus! {

pub open spec fn min_int(a: IntTy, b: IntTy) -> IntTy {
    if a.rank() <= b.rank() { a } else { b }
}

pub open spec fn max_int(a: IntTy, b: IntTy) -> IntTy {
    if a.rank() >= b.rank() { a } else { b }
}

pub open spec fn min_uint(a: UIntTy, b: UIntTy) -> UIntTy {
    if a.rank() <= b.rank() { a } else { b }
}

pub open spec fn max_uint(a: UIntTy, b: UIntTy) -> UIntTy {
    if a.rank() >= b.rank() { a } else { b }
}

pub open spec fn min_float(a: FloatTy, b: FloatTy) -> FloatTy {
    if a.rank() <= b.rank() { a } else { b }
}

pub open spec fn max_float(a: FloatTy, b: FloatTy) -> FloatTy {
    if a.rank() >= b.rank() { a } else { b }
}

/// The greatest lower bound of two types.
pub open spec fn meet_spec(l: TyTree, r: TyTree) -> TyTree
    decreases l, r,
{
    if l == r {
        l
    } else {
        match (l, r) {
            (TyTree::Never, _) | (_, TyTree::Any) => l,
            (_, TyTree::Never) | (TyTree::Any, _) => r,
            (_, TyTree::Error) | (TyTree::Error, _) => TyTree::Error,
            (_, TyTree::Infer) | (TyTree::Infer, _) => TyTree::Infer,
            (_, TyTree::Pending) | (TyTree::Pending, _) => TyTree::Pending,
            (TyTree::Int(a), TyTree::Int(b)) => TyTree::Int(min_int(a, b)),
            (TyTree::UInt(a), TyTree::UInt(b)) => TyTree::UInt(min_uint(a, b)),
            (TyTree::Int(_), TyTree::Integer) | (TyTree::UInt(_), TyTree::Integer) => l,
            (TyTree::Integer, TyTree::Int(_)) | (TyTree::Integer, TyTree::UInt(_)) => r,
            (TyTree::Float(a), TyTree::Float(b)) => TyTree::Float(min_float(a, b)),
            (TyTree::Nullable(a), TyTree::Nullable(b)) => TyTree::Nullable(
                Box::new(meet_spec(*a, *b)),
            ),
            (TyTree::Nullable(a), _) => meet_spec(*a, r),
            (_, TyTree::Nullable(b)) => meet_spec(l, *b),
            (TyTree::Array(a), TyTree::Array(b)) => TyTree::Array(Box::new(meet_spec(*a, *b))),
            (TyTree::Tuple(a), TyTree::Tuple(b)) => if a.len() == b.len() {
                TyTree::Tuple(
                    Seq::new(
                        a.len(),
                        |i: int|
                            if 0 <= i < a.len() {
                                meet_spec(a[i], b[i])
                            } else {
                                TyTree::Never
                            },
                    ),
                )
            } else {
                TyTree::Never
            },
            (TyTree::Func(pa, ra), TyTree::Func(pb, rb)) => if pa.len() == pb.len() {
                TyTree::Func(
                    Seq::new(
                        pa.len(),
                        |i: int|
                            if 0 <= i < pa.len() {
                                meet_spec(pa[i], pb[i])
                            } else {
                                TyTree::Never
                            },
                    ),
                    Box::new(meet_spec(*ra, *rb)),
                )
            } else {
                TyTree::Never
            },
            _ => TyTree::Never,
        }
    }
}

/// The least upper bound of two types.
pub open spec fn join_spec(l: TyTree, r: TyTree) -> TyTree
    decreases l, r,
{
    if l == r {
        l
    } else {
        match (l, r) {
            (_, TyTree::Never) | (TyTree::Any, _) => l,
            (TyTree::Never, _) | (_, TyTree::Any) => r,
            (_, TyTree::Error) | (TyTree::Error, _) => TyTree::Error,
            (_, TyTree::Infer) | (TyTree::Infer, _) => TyTree::Infer,
            (_, TyTree::Pending) | (TyTree::Pending, _) => TyTree::Pending,
            (TyTree::Int(a), TyTree::Int(b)) => TyTree::Int(max_int(a, b)),
            (TyTree::UInt(a), TyTree::UInt(b)) => TyTree::UInt(max_uint(a, b)),
            (TyTree::Int(_), TyTree::Integer) | (TyTree::UInt(_), TyTree::Integer) => TyTree::Integer,
            (TyTree::Integer, TyTree::Int(_)) | (TyTree::Integer, TyTree::UInt(_)) => TyTree::Integer,
            (TyTree::Float(a), TyTree::Float(b)) => TyTree::Float(max_float(a, b)),
            (TyTree::Nullable(a), TyTree::Nullable(b)) => TyTree::Nullable(
                Box::new(join_spec(*a, *b)),
            ),
            (TyTree::Nullable(a), _) => TyTree::Nullable(Box::new(join_spec(*a, r))),
            (_, TyTree::Nullable(b)) => TyTree::Nullable(Box::new(join_spec(l, *b))),
            (TyTree::Array(a), TyTree::Array(b)) => TyTree::Array(Box::new(join_spec(*a, *b))),
            (TyTree::Tuple(a), TyTree::Tuple(b)) => if a.len() == b.len() {
                TyTree::Tuple(
                    Seq::new(
                        a.len(),
                        |i: int|
                            if 0 <= i < a.len() {
                                join_spec(a[i], b[i])
                            } else {
                                TyTree::Never
                            },
                    ),
                )
            } else {
                TyTree::Any
            },
            (TyTree::Func(pa, ra), TyTree::Func(pb, rb)) => if pa.len() == pb.len() {
                TyTree::Func(
                    Seq::new(
                        pa.len(),
                        |i: int|
                            if 0 <= i < pa.len() {
                                join_spec(pa[i], pb[i])
                            } else {
                                TyTree::Never
                            },
                    ),
                    Box::new(join_spec(*ra, *rb)),
                )
            } else {
                TyTree::Any
            },
            _ => TyTree::Any,
        }
    }
}

/// The meet does not depend on the order of its operands.
pub proof fn lemma_meet_commutes(a: TyTree, b: TyTree)
    ensures
        meet_spec(a, b) == meet_spec(b, a),
{
    lemma_meet_commutative(a, b);
}

/// The join does not depend on the order of its operands.
pub proof fn lemma_join_commutes(a: TyTree, b: TyTree)
    ensures
        join_spec(a, b) == join_spec(b, a),
{
    lemma_join_commutative(a, b);
}

/// The meet of a type with itself is that type, the meet does not depend on
/// the order of its operands, `never` is below every type and `any` above
/// every type, two signed integer types meet in the narrower one, and two
/// types of unrelated kinds meet in `never`.
pub proof fn lemma_meet_laws(a: TyTree, b: TyTree, x: IntTy, y: IntTy)
    ensures
        meet_spec(a, a) == a,
        meet_spec(a, b) == meet_spec(b, a),
        meet_spec(TyTree::Never, a) == TyTree::Never,
        meet_spec(TyTree::Any, a) == a,
        meet_spec(TyTree::Int(x), TyTree::Int(y)) == TyTree::Int(min_int(x, y)),
        meet_spec(TyTree::Int(IntTy::Int32), TyTree::Str) == TyTree::Never,
{
    lemma_meet_commutes(a, b);
}

/// The join of a type with itself is that type, the join does not depend on
/// the order of its operands, `never` is below every type and `any` above
/// every type, two signed integer types join in the wider one, two types of
/// unrelated kinds join in `any`, and a nullable type joins the other
/// operand inside it.
pub proof fn lemma_join_laws(a: TyTree, b: TyTree, x: IntTy, y: IntTy)
    ensures
        join_spec(a, a) == a,
        join_spec(a, b) == join_spec(b, a),
        join_spec(TyTree::Never, a) == a,
        join_spec(TyTree::Any, a) == TyTree::Any,
        join_spec(TyTree::Int(x), TyTree::Int(y)) == TyTree::Int(max_int(x, y)),
        join_spec(TyTree::Int(IntTy::Int32), TyTree::Str) == TyTree::Any,
        join_spec(TyTree::Nullable(Box::new(TyTree::Int(IntTy::Int32))), TyTree::Int(IntTy::Int64))
            == TyTree::Nullable(Box::new(TyTree::Int(IntTy::Int64))),
{
    lemma_join_commutes(a, b);
    assert(join_spec(TyTree::Int(IntTy::Int32), TyTree::Int(IntTy::Int64)) == TyTree::Int(IntTy::Int64));
}

/// On two numeric types of one kind the join is an upper bound and the meet
/// a lower bound: the join is one of the two, of rank at least that of each,
/// and the meet is one of the two, of rank at most that of each.
pub proof fn lemma_numeric_bounds(a: IntTy, b: IntTy, c: UIntTy, d: UIntTy, f: FloatTy, g: FloatTy)
    ensures
        join_spec(TyTree::Int(a), TyTree::Int(b)) matches TyTree::Int(j) && (j == a || j == b) && a.rank()
            <= j.rank() && b.rank() <= j.rank(),
        meet_spec(TyTree::Int(a), TyTree::Int(b)) matches TyTree::Int(m) && (m == a || m == b) && m.rank()
            <= a.rank() && m.rank() <= b.rank(),
        join_spec(TyTree::UInt(c), TyTree::UInt(d)) matches TyTree::UInt(j) && (j == c || j == d)
            && c.rank() <= j.rank() && d.rank() <= j.rank(),
        meet_spec(TyTree::UInt(c), TyTree::UInt(d)) matches TyTree::UInt(m) && (m == c || m == d)
            && m.rank() <= c.rank() && m.rank() <= d.rank(),
        join_spec(TyTree::Float(f), TyTree::Float(g)) matches TyTree::Float(j) && (j == f || j == g)
            && f.rank() <= j.rank() && g.rank() <= j.rank(),
        meet_spec(TyTree::Float(f), TyTree::Float(g)) matches TyTree::Float(m) && (m == f || m == g)
            && m.rank() <= f.rank() && m.rank() <= g.rank(),
{
}

impl TyCtx {
    /// Finds the greatest lower bound of two types
    pub fn meet(&self, lhs: &Ty, rhs: &Ty) -> (r: Ty)
        ensures
            r@ == meet_spec(lhs@, rhs@),
        decreases lhs, rhs,
    {
        proof {
            lemma_view_lists(*lhs);
            lemma_view_lists(*rhs);
        }
        if crate::types::ty::ty_eq(lhs, rhs) {
            return lhs.deep_clone();
        }
        match (&*lhs.0, &*rhs.0) {
            (TyKind::Never, _) | (_, TyKind::Any) => lhs.deep_clone(),
            (_, TyKind::Never) | (TyKind::Any, _) => rhs.deep_clone(),
            (_, TyKind::Error(err)) | (TyKind::Error(err), _) => self.mk_error(*err),
            (_, TyKind::Infer) | (TyKind::Infer, _) => self.mk_infer(),
            (_, TyKind::Pending) | (TyKind::Pending, _) => self.mk_pending(),
            (TyKind::Int(a), TyKind::Int(b)) => self.mk_int(
                if a.rank_exec() <= b.rank_exec() { *a } else { *b },
            ),
            (TyKind::UInt(a), TyKind::UInt(b)) => self.mk_uint(
                if a.rank_exec() <= b.rank_exec() { *a } else { *b },
            ),
            (TyKind::Int(_), TyKind::Integer) | (TyKind::UInt(_), TyKind::Integer) => lhs.deep_clone(),
            (TyKind::Integer, TyKind::Int(_)) | (TyKind::Integer, TyKind::UInt(_)) => rhs.deep_clone(),
            (TyKind::Float(a), TyKind::Float(b)) => self.mk_float(
                if a.rank_exec() <= b.rank_exec() { *a } else { *b },
            ),
            (TyKind::Nullable(a), TyKind::Nullable(b)) => self.mk_nullable(self.meet(a, b)),
            (TyKind::Nullable(a), _) => self.meet(a, rhs),
            (_, TyKind::Nullable(b)) => self.meet(lhs, b),
            (TyKind::Array(a), TyKind::Array(b)) => self.mk_array(self.meet(a, b)),
            (TyKind::Tuple(a), TyKind::Tuple(b)) if a.len() == b.len() => {
                let tys = self.meet_all(a, b);
                let r = self.mk_tuple(tys);
                proof {
                    assert(tys_view(tys@) =~= meet_spec(lhs@, rhs@)->Tuple_0);
                }
                r
            },
            (TyKind::Func(a), TyKind::Func(b)) if a.params.len() == b.params.len() => {
                let params = self.meet_all(&a.params, &b.params);
                let ret = self.meet(&a.ret, &b.ret);
                let r = self.mk_func(params, ret);
                proof {
                    assert(tys_view(params@) =~= meet_spec(lhs@, rhs@)->Func_0);
                }
                r
            },
            _ => self.mk_never(),
        }
    }

    fn meet_all(&self, a: &Vec<Ty>, b: &Vec<Ty>) -> (r: Vec<Ty>)
        requires
            a.len() == b.len(),
        ensures
            r.len() == a.len(),
            forall|i: int| 0 <= i < a.len() ==> r@[i]@ == meet_spec(a@[i]@, b@[i]@),
        decreases a, b,
    {
        let mut r: Vec<Ty> = Vec::new();
        let mut i: usize = 0;
        while i < a.len()
            invariant
                i <= a.len(),
                a.len() == b.len(),
                r.len() == i,
                forall|j: int| 0 <= j < i ==> r@[j]@ == meet_spec(a@[j]@, b@[j]@),
            decreases a.len() - i,
        {
            r.push(self.meet(&a[i], &b[i]));
            i = i + 1;
        }
        r
    }

    /// Finds the least upper bound of two types, if one exists
    pub fn join(&self, lhs: &Ty, rhs: &Ty) -> (r: Ty)
        ensures
            r@ == join_spec(lhs@, rhs@),
        decreases lhs, rhs,
    {
        proof {
            lemma_view_lists(*lhs);
            lemma_view_lists(*rhs);
        }
        if crate::types::ty::ty_eq(lhs, rhs) {
            return lhs.deep_clone();
        }
        match (&*lhs.0, &*rhs.0) {
            (_, TyKind::Never) | (TyKind::Any, _) => lhs.deep_clone(),
            (TyKind::Never, _) | (_, TyKind::Any) => rhs.deep_clone(),
            (_, TyKind::Error(err)) | (TyKind::Error(err), _) => self.mk_error(*err),
            (_, TyKind::Infer) | (TyKind::Infer, _) => self.mk_infer(),
            (_, TyKind::Pending) | (TyKind::Pending, _) => self.mk_pending(),
            (TyKind::Int(a), TyKind::Int(b)) => self.mk_int(
                if a.rank_exec() >= b.rank_exec() { *a } else { *b },
            ),
            (TyKind::UInt(a), TyKind::UInt(b)) => self.mk_uint(
                if a.rank_exec() >= b.rank_exec() { *a } else { *b },
            ),
            (TyKind::Int(_), TyKind::Integer) | (TyKind::UInt(_), TyKind::Integer) => self.mk_integer(),
            (TyKind::Integer, TyKind::Int(_)) | (TyKind::Integer, TyKind::UInt(_)) => self.mk_integer(),
            (TyKind::Float(a), TyKind::Float(b)) => self.mk_float(
                if a.rank_exec() >= b.rank_exec() { *a } else { *b },
            ),
            (TyKind::Nullable(a), TyKind::Nullable(b)) => self.mk_nullable(self.join(a, b)),
            (TyKind::Nullable(a), _) => self.mk_nullable(self.join(a, rhs)),
            (_, TyKind::Nullable(b)) => self.mk_nullable(self.join(lhs, b)),
            (TyKind::Array(a), TyKind::Array(b)) => self.mk_array(self.join(a, b)),
            (TyKind::Tuple(a), TyKind::Tuple(b)) if a.len() == b.len() => {
                let tys = self.join_all(a, b);
                let r = self.mk_tuple(tys);
                proof {
                    assert(tys_view(tys@) =~= join_spec(lhs@, rhs@)->Tuple_0);
                }
                r
            },
            (TyKind::Func(a), TyKind::Func(b)) if a.params.len() == b.params.len() => {
                let params = self.join_all(&a.params, &b.params);
                let ret = self.join(&a.ret, &b.ret);
                let r = self.mk_func(params, ret);
                proof {
                    assert(tys_view(params@) =~= join_spec(lhs@, rhs@)->Func_0);
                }
                r
            },
            _ => self.mk_any(),
        }
    }

    fn join_all(&self, a: &Vec<Ty>, b: &Vec<Ty>) -> (r: Vec<Ty>)
        requires
            a.len() == b.len(),
        ensures
            r.len() == a.len(),
            forall|i: int| 0 <= i < a.len() ==> r@[i]@ == join_spec(a@[i]@, b@[i]@),
        decreases a, b,
    {
        let mut r: Vec<Ty> = Vec::new();
        let mut i: usize = 0;
        while i < a.len()
            invariant
                i <= a.len(),
                a.len() == b.len(),
                r.len() == i,
                forall|j: int| 0 <= j < i ==> r@[j]@ == join_spec(a@[j]@, b@[j]@),
            decreases a.len() - i,
        {
            r.push(self.join(&a[i], &b[i]));
            i = i + 1;
        }
        r
    }
}

/// The meet of two types does not depend on their order.
pub proof fn lemma_meet_commutative(l: TyTree, r: TyTree)
    ensures
        meet_spec(l, r) == meet_spec(r, l),
    decreases l, r,
{
    match (l, r) {
        (TyTree::Nullable(a), TyTree::Nullable(b)) => {
            lemma_meet_commutative(*a, *b);
        },
        (TyTree::Nullable(a), _) => {
            lemma_meet_commutative(*a, r);
        },
        (_, TyTree::Nullable(b)) => {
            lemma_meet_commutative(l, *b);
        },
        (TyTree::Array(a), TyTree::Array(b)) => {
            lemma_meet_commutative(*a, *b);
        },
        (TyTree::Tuple(a), TyTree::Tuple(b)) => {
            if a.len() == b.len() && l != r {
                assert forall|i: int| 0 <= i < a.len() implies meet_spec(a[i], b[i]) == meet_spec(
                    b[i],
                    a[i],
                ) by {
                    lemma_meet_commutative(a[i], b[i]);
                }
                assert(meet_spec(l, r)->Tuple_0 =~= meet_spec(r, l)->Tuple_0);
            }
        },
        (TyTree::Func(pa, ra), TyTree::Func(pb, rb)) => {
            if pa.len() == pb.len() && l != r {
                assert forall|i: int| 0 <= i < pa.len() implies meet_spec(pa[i], pb[i])
                    == meet_spec(pb[i], pa[i]) by {
                    lemma_meet_commutative(pa[i], pb[i]);
                }
                lemma_meet_commutative(*ra, *rb);
                assert(meet_spec(l, r)->Func_0 =~= meet_spec(r, l)->Func_0);
            }
        },
        _ => {},
    }
}

/// The join of two types does not depend on their order.
pub proof fn lemma_join_commutative(l: TyTree, r: TyTree)
    ensures
        join_spec(l, r) == join_spec(r, l),
    decreases l, r,
{
    match (l, r) {
        (TyTree::Nullable(a), TyTree::Nullable(b)) => {
            lemma_join_commutative(*a, *b);
        },
        (TyTree::Nullable(a), _) => {
            lemma_join_commutative(*a, r);
        },
        (_, TyTree::Nullable(b)) => {
            lemma_join_commutative(l, *b);
        },
        (TyTree::Array(a), TyTree::Array(b)) => {
            lemma_join_commutative(*a, *b);
        },
        (TyTree::Tuple(a), TyTree::Tuple(b)) => {
            if a.len() == b.len() && l != r {
                assert forall|i: int| 0 <= i < a.len() implies join_spec(a[i], b[i]) == join_spec(
                    b[i],
                    a[i],
                ) by {
                    lemma_join_commutative(a[i], b[i]);
                }
                assert(join_spec(l, r)->Tuple_0 =~= join_spec(r, l)->Tuple_0);
            }
        },
        (TyTree::Func(pa, ra), TyTree::Func(pb, rb)) => {
            if pa.len() == pb.len() && l != r {
                assert forall|i: int| 0 <= i < pa.len() implies join_spec(pa[i], pb[i])
                    == join_spec(pb[i], pa[i]) by {
                    lemma_join_commutative(pa[i], pb[i]);
                }
                lemma_join_commutative(*ra, *rb);
                assert(join_spec(l, r)->Func_0 =~= join_spec(r, l)->Func_0);
            }
        },
        _ => {},
    }
}

/// Meet and join of a type with itself give the type back.
pub proof fn lemma_meet_join_idempotent(t: TyTree)
    ensures
        meet_spec(t, t) == t,
        join_spec(t, t) == t,
{
}

/// Represents the infered bounds of a type parameter
#[derive(Debug)]
pub struct TyBounds {
    pub lower: Ty,
    pub upper: Ty,
}

/// The polarity of a type bound
#[derive(Clone, Copy, PartialEq, Eq, Structural, Debug)]
pub enum Bound {
    Lower,
    Upper,
}

/// Why an expected type and a provided one could not be reconciled, with
/// the errors of their parts that led to it.
#[derive(Debug)]
pub struct TypeError {
    kind: TypeErrorKind,
    causes: Vec<TypeError>,
}

#[derive(Debug)]
pub enum TypeErrorKind {
    Ambiguous,
    Unassignable { act: Ty, exp: Ty },
    Arity { exp: Args, act: Args },
    TupleLength { exp: Elements, act: Elements },
}

/// The mathematical value of an error kind.
pub enum ErrKindTree {
    Ambiguous,
    Unassignable { act: TyTree, exp: TyTree },
    Arity { exp: nat, act: nat },
    TupleLength { exp: nat, act: nat },
}

/// The mathematical value of a type error: its kind and its causes.
pub struct ErrTree {
    pub kind: ErrKindTree,
    pub causes: Seq<ErrTree>,
}

impl View for TypeErrorKind {
    type V = ErrKindTree;

    open spec fn view(&self) -> ErrKindTree {
        match *self {
            TypeErrorKind::Ambiguous => ErrKindTree::Ambiguous,
            TypeErrorKind::Unassignable { act, exp } => ErrKindTree::Unassignable {
                act: act@,
                exp: exp@,
            },
            TypeErrorKind::Arity { exp, act } => ErrKindTree::Arity { exp: exp.0 as nat, act: act.0 as nat },
            TypeErrorKind::TupleLength { exp, act } => ErrKindTree::TupleLength {
                exp: exp.0 as nat,
                act: act.0 as nat,
            },
        }
    }
}

pub closed spec fn err_view(e: TypeError) -> ErrTree
    decreases e,
{
    ErrTree {
        kind: e.kind@,
        causes: Seq::new(
            e.causes@.len(),
            |i: int|
                if 0 <= i < e.causes@.len() {
                    err_view(e.causes@[i])
                } else {
                    ambiguous()
                },
        ),
    }
}

impl View for TypeError {
    type V = ErrTree;

    open spec fn view(&self) -> ErrTree {
        err_view(*self)
    }
}

/// The trees of a list of errors.
pub open spec fn errs_view(s: Seq<TypeError>) -> Seq<ErrTree> {
    s.map_values(|e: TypeError| e@)
}

pub open spec fn ambiguous() -> ErrTree {
    ErrTree { kind: ErrKindTree::Ambiguous, causes: Seq::empty() }
}

pub open spec fn unassignable(act: TyTree, exp: TyTree, causes: Seq<ErrTree>) -> ErrTree {
    ErrTree { kind: ErrKindTree::Unassignable { act, exp }, causes }
}

/// The successful results of a sequence, in order.
pub open spec fn oks(rs: Seq<Result<TyTree, ErrTree>>) -> Seq<TyTree>
    decreases rs.len(),
{
    if rs.len() == 0 {
        Seq::empty()
    } else {
        match rs.last() {
            Ok(t) => oks(rs.drop_last()).push(t),
            Err(_) => oks(rs.drop_last()),
        }
    }
}

/// The errors of a sequence of results, in order.
pub open spec fn errs(rs: Seq<Result<TyTree, ErrTree>>) -> Seq<ErrTree>
    decreases rs.len(),
{
    if rs.len() == 0 {
        Seq::empty()
    } else {
        match rs.last() {
            Ok(_) => errs(rs.drop_last()),
            Err(e) => errs(rs.drop_last()).push(e),
        }
    }
}

/// Wraps the result of reconciling the inner types of a nullable type.
pub open spec fn wrap_nullable(
    act: TyTree,
    exp: TyTree,
    inner: Result<TyTree, ErrTree>,
) -> Result<TyTree, ErrTree> {
    match inner {
        Ok(t) => Ok(TyTree::Nullable(Box::new(t))),
        Err(e) => Err(unassignable(act, exp, seq![e])),
    }
}

/// Reconciles each provided type in `acts` with the expected one at the same
/// position in `exps`.
pub open spec fn reconcile_all(acts: Seq<TyTree>, exps: Seq<TyTree>) -> Seq<
    Result<TyTree, ErrTree>,
>
    decreases sizes(acts) + sizes(exps), 2nat,
{
    Seq::new(
        acts.len(),
        |i: int|
            if 0 <= i < acts.len() && i < exps.len() {
                proof {
                    lemma_sizes_elem(acts, i);
                    lemma_sizes_elem(exps, i);
                }
                reconcile_spec(acts[i], exps[i])
            } else {
                Ok(TyTree::Never)
            },
    )
}

/// Reconciles the expected type `exp` against the provided type `act`.
pub open spec fn reconcile_spec(act: TyTree, exp: TyTree) -> Result<TyTree, ErrTree>
    decreases size(act) + size(exp), 1nat,
{
    match (act, exp) {
        (TyTree::Error, _) | (TyTree::Pending, _) => Ok(act),
        (_, TyTree::Error) | (_, TyTree::Pending) => Ok(exp),
        (TyTree::Infer, TyTree::Infer) => Err(ambiguous()),
        _ => if act == exp {
            Ok(act)
        } else {
            match (act, exp) {
                (TyTree::Infer, _) => if occurs(exp, TyTree::Infer) {
                    Err(ambiguous())
                } else {
                    Ok(exp)
                },
                (_, TyTree::Infer) => if occurs(act, TyTree::Infer) {
                    Err(ambiguous())
                } else {
                    Ok(act)
                },
                (TyTree::Nullable(a), TyTree::Nullable(e)) => wrap_nullable(
                    act,
                    exp,
                    reconcile_spec(*a, *e),
                ),
                (_, TyTree::Nullable(e)) => wrap_nullable(act, exp, reconcile_spec(act, *e)),
                (TyTree::Array(a), TyTree::Array(e)) => match reconcile_spec(*a, *e) {
                    Ok(t) => Ok(TyTree::Array(Box::new(t))),
                    Err(x) => Err(unassignable(act, exp, seq![x])),
                },
                (TyTree::Tuple(a), TyTree::Tuple(e)) => if a.len() != e.len() {
                    Err(
                        ErrTree {
                            kind: ErrKindTree::TupleLength { exp: e.len(), act: a.len() },
                            causes: Seq::empty(),
                        },
                    )
                } else {
                    let rs = reconcile_all(a, e);
                    if errs(rs).len() == 0 {
                        Ok(TyTree::Tuple(oks(rs)))
                    } else {
                        Err(unassignable(act, exp, errs(rs)))
                    }
                },
                (TyTree::Func(pa, ra), TyTree::Func(pe, re)) => if pa.len() != pe.len() {
                    Err(
                        ErrTree {
                            kind: ErrKindTree::Arity { exp: pe.len(), act: pa.len() },
                            causes: Seq::empty(),
                        },
                    )
                } else {
                    let rs = reconcile_all(pe, pa);
                    let rr = reconcile_spec(*ra, *re);
                    let es = match rr {
                        Ok(_) => errs(rs),
                        Err(x) => errs(rs).push(x),
                    };
                    let ret = match rr {
                        Ok(t) => t,
                        Err(_) => TyTree::Never,
                    };
                    if es.len() == 0 {
                        Ok(TyTree::Func(oks(rs), Box::new(ret)))
                    } else {
                        Err(unassignable(act, exp, es))
                    }
                },
                (TyTree::Int(a), TyTree::Int(e)) => if a.rank() <= e.rank() {
                    Ok(exp)
                } else {
                    Err(unassignable(act, exp, Seq::empty()))
                },
                (TyTree::UInt(a), TyTree::UInt(e)) => if a.rank() <= e.rank() {
                    Ok(exp)
                } else {
                    Err(unassignable(act, exp, Seq::empty()))
                },
                (TyTree::Float(a), TyTree::Float(e)) => if a.rank() <= e.rank() {
                    Ok(exp)
                } else {
                    Err(unassignable(act, exp, Seq::empty()))
                },
                (TyTree::Never, _) | (_, TyTree::Any) => Ok(exp),
                _ => Err(unassignable(act, exp, Seq::empty())),
            }
        },
    }
}

proof fn lemma_err_view(e: TypeError)
    ensures
        e@.kind == e.kind@,
        e@.causes == errs_view(e.causes@),
{
    assert(e@.causes =~= errs_view(e.causes@));
}

/// Checks that a tuple has the expected number of elements.
pub fn check_tuple_len(expected: usize, actual: usize) -> (r: Result<(), TypeError>)
    ensures
        match r {
            Ok(_) => expected == actual,
            Err(e) => expected != actual && e@ == (ErrTree {
                kind: ErrKindTree::TupleLength { exp: actual as nat, act: expected as nat },
                causes: Seq::empty(),
            }),
        },
{
    if expected == actual {
        Ok(())
    } else {
        Err(TypeError::tuple_length(expected, actual))
    }
}

/// Checks that a function is given the expected number of arguments.
pub fn check_arity(expected: usize, actual: usize) -> (r: Result<(), TypeError>)
    ensures
        match r {
            Ok(_) => expected == actual,
            Err(e) => expected != actual && e@ == (ErrTree {
                kind: ErrKindTree::Arity { exp: actual as nat, act: expected as nat },
                causes: Seq::empty(),
            }),
        },
{
    if expected == actual {
        Ok(())
    } else {
        Err(TypeError::arity(expected, actual))
    }
}

/// A type as it appears in messages.
pub open spec fn quoted(t: TyTree) -> Seq<char> {
    "'"@ + crate::types::ty::ty_text(t, Seq::empty()) + "'"@
}

/// The message of a type error: that of its kind.
pub open spec fn type_error_text(e: ErrTree) -> Seq<char> {
    match e.kind {
        ErrKindTree::Ambiguous => "Cannot infer a type here"@,
        ErrKindTree::Unassignable { act, exp } => quoted(act) + " is not assignable to "@ + quoted(
            exp,
        ),
        ErrKindTree::Arity { exp, act } => "expected "@ + args_text(exp) + ", but got "@ + args_text(
            act,
        ),
        ErrKindTree::TupleLength { exp, act } => "expected "@ + elements_text(exp) + ", but got "@
            + elements_text(act),
    }
}

/// A text with a new line and four spaces in place of each new line.
pub open spec fn indent_rest(s: Seq<char>) -> Seq<char>
    decreases s.len(),
{
    if s.len() == 0 {
        Seq::empty()
    } else {
        indent_rest(s.drop_last()) + if s.last() == '\n' {
            "\n    "@
        } else {
            seq![s.last()]
        }
    }
}

/// A text with each of its lines indented by four spaces.
pub open spec fn indent(s: Seq<char>) -> Seq<char> {
    "    "@ + indent_rest(s)
}

/// The message of a type error followed, line by line, by the indented
/// messages of its causes.
pub open spec fn type_error_alt_text(e: ErrTree) -> Seq<char>
    decreases e, 1nat,
{
    type_error_text(e) + causes_alt_text(e.causes, e.causes.len() as int)
}

/// The indented messages of the first `k` causes, each on a new line.
pub open spec fn causes_alt_text(cs: Seq<ErrTree>, k: int) -> Seq<char>
    decreases cs, k,
{
    if 0 < k <= cs.len() {
        causes_alt_text(cs, k - 1) + "\n"@ + indent(type_error_alt_text(cs[k - 1]))
    } else {
        Seq::empty()
    }
}

/// Writes a text with each of its lines indented by four spaces.
fn push_indented(out: &mut String, text: &String)
    ensures
        final(out)@ == old(out)@ + indent(text@),
{
    push_str(out, "    ");
    let chars = crate::text::str_chars(text.as_str());
    let ghost start = out@;
    let mut i: usize = 0;
    proof {
        assert(text@.take(0) =~= Seq::<char>::empty());
        assert(start + indent_rest(text@.take(0)) =~= start);
    }
    while i < chars.len()
        invariant
            chars@ == text@,
            i <= chars.len(),
            out@ == start + indent_rest(text@.take(i as int)),
        decreases chars.len() - i,
    {
        proof {
            assert(text@.take(i + 1).drop_last() =~= text@.take(i as int));
        }
        if chars[i] == '\n' {
            push_str(out, "\n    ");
        } else {
            crate::text::push_char(out, chars[i]);
        }
        i = i + 1;
    }
    proof {
        assert(text@.take(i as int) =~= text@);
    }
}

impl TypeErrorKind {
    /// The kind's message.
    pub fn to_string(&self) -> (s: String)
        ensures
            s@ == type_error_text(ErrTree { kind: self@, causes: Seq::empty() }),
    {
        let mut s = String::new();
        match self {
            TypeErrorKind::Ambiguous => {
                push_str(&mut s, "Cannot infer a type here");
                proof {
                    assert(s@ =~= type_error_text(ErrTree { kind: self@, causes: Seq::empty() }));
                }
            },
            TypeErrorKind::Unassignable { act, exp } => {
                push_str(&mut s, "'");
                push_str(&mut s, act.to_string().as_str());
                push_str(&mut s, "'");
                push_str(&mut s, " is not assignable to ");
                push_str(&mut s, "'");
                push_str(&mut s, exp.to_string().as_str());
                push_str(&mut s, "'");
                proof {
                    assert(s@ =~= type_error_text(ErrTree { kind: self@, causes: Seq::empty() }));
                }
            },
            TypeErrorKind::Arity { exp, act } => {
                push_str(&mut s, "expected ");
                push_str(&mut s, exp.to_string().as_str());
                push_str(&mut s, ", but got ");
                push_str(&mut s, act.to_string().as_str());
                proof {
                    assert(s@ =~= type_error_text(ErrTree { kind: self@, causes: Seq::empty() }));
                }
            },
            TypeErrorKind::TupleLength { exp, act } => {
                push_str(&mut s, "expected ");
                push_str(&mut s, exp.to_string().as_str());
                push_str(&mut s, ", but got ");
                push_str(&mut s, act.to_string().as_str());
                proof {
                    assert(s@ =~= type_error_text(ErrTree { kind: self@, causes: Seq::empty() }));
                }
            },
        }
        s
    }
}

impl TypeError {
    /// The error's message: that of its kind.
    pub fn to_string(&self) -> (s: String)
        ensures
            s@ == type_error_text(self@),
    {
        proof {
            lemma_err_view(*self);
        }
        self.kind.to_string()
    }

    /// The error's message followed, line by line, by the indented messages
    /// of its causes.
    pub fn to_string_alternate(&self) -> (s: String)
        ensures
            s@ == type_error_alt_text(self@),
        decreases self,
    {
        proof {
            lemma_err_view(*self);
        }
        let mut s = self.kind.to_string();
        let ghost cs = self@.causes;
        let mut i: usize = 0;
        proof {
            assert(s@ + causes_alt_text(cs, 0) =~= s@);
        }
        while i < self.causes.len()
            invariant
                i <= self.causes.len(),
                cs == self@.causes,
                cs == errs_view(self.causes@),
                s@ == type_error_text(self@) + causes_alt_text(cs, i as int),
            decreases self.causes.len() - i,
        {
            let c = self.causes[i].to_string_alternate();
            push_str(&mut s, "\n");
            push_indented(&mut s, &c);
            i = i + 1;
        }
        s
    }
}

impl TypeError {
    fn new(kind: TypeErrorKind) -> (r: Self)
        ensures
            r@ == (ErrTree { kind: kind@, causes: Seq::empty() }),
    {
        let r = TypeError { kind, causes: Vec::new() };
        proof {
            lemma_err_view(r);
            assert(r@.causes =~= Seq::<ErrTree>::empty());
        }
        r
    }

    fn ambiguous() -> (r: Self)
        ensures
            r@ == ambiguous(),
    {
        Self::new(TypeErrorKind::Ambiguous)
    }

    fn unassignable(act: &Ty, exp: &Ty) -> (r: Self)
        ensures
            r@ == unassignable(act@, exp@, Seq::empty()),
    {
        Self::new(TypeErrorKind::Unassignable { act: act.deep_clone(), exp: exp.deep_clone() })
    }

    fn tuple_length(act: usize, exp: usize) -> (r: Self)
        ensures
            r@ == (ErrTree {
                kind: ErrKindTree::TupleLength { exp: exp as nat, act: act as nat },
                causes: Seq::empty(),
            }),
    {
        let exp = Elements(exp);
        let act = Elements(act);
        Self::new(TypeErrorKind::TupleLength { act, exp })
    }

    fn arity(act: usize, exp: usize) -> (r: Self)
        ensures
            r@ == (ErrTree {
                kind: ErrKindTree::Arity { exp: exp as nat, act: act as nat },
                causes: Seq::empty(),
            }),
    {
        let exp = Args(exp);
        let act = Args(act);
        Self::new(TypeErrorKind::Arity { act, exp })
    }

    fn with_cause(self, cause: Self) -> (r: Self)
        ensures
            r@ == (ErrTree { kind: self@.kind, causes: self@.causes.push(cause@) }),
    {
        let mut s = self;
        proof {
            lemma_err_view(s);
        }
        s.causes.push(cause);
        proof {
            lemma_err_view(s);
            assert(errs_view(s.causes@) =~= self@.causes.push(cause@));
        }
        s
    }

    fn with_causes(self, causes: Vec<Self>) -> (r: Self)
        ensures
            r@ == (ErrTree { kind: self@.kind, causes: self@.causes + errs_view(causes@) }),
    {
        let mut s = self;
        let mut causes = causes;
        proof {
            lemma_err_view(s);
        }
        let ghost old_causes = causes@;
        s.causes.append(&mut causes);
        proof {
            lemma_err_view(s);
            assert(errs_view(s.causes@) =~= self@.causes + errs_view(old_causes));
        }
        s
    }

    /// What went wrong.
    pub fn kind(&self) -> (r: &TypeErrorKind)
        ensures
            r@ == self@.kind,
    {
        proof {
            lemma_err_view(*self);
        }
        &self.kind
    }

    /// The errors of the parts that led to this one.
    pub fn causes(&self) -> (r: &[TypeError])
        ensures
            errs_view(r@) == self@.causes,
    {
        proof {
            lemma_err_view(*self);
        }
        self.causes.as_slice()
    }
}

/// Splitting off the last result of a sequence.
proof fn lemma_oks_errs_step(rs: Seq<Result<TyTree, ErrTree>>, i: int)
    requires
        0 <= i < rs.len(),
    ensures
        oks(rs.take(i + 1)) == (match rs[i] {
            Ok(t) => oks(rs.take(i)).push(t),
            Err(_) => oks(rs.take(i)),
        }),
        errs(rs.take(i + 1)) == (match rs[i] {
            Ok(_) => errs(rs.take(i)),
            Err(e) => errs(rs.take(i)).push(e),
        }),
{
    assert(rs.take(i + 1).drop_last() =~= rs.take(i));
}

impl TyCtx {
    /// Reconciles the expected type `exp` against the provided type `act`,
    /// returning the resolved expected type, or an error if the types are incompatible or ambiguous
    #[verifier::rlimit(40)]
    pub fn reconcile(&self, act: &Ty, exp: &Ty) -> (r: Result<Ty, TypeError>)
        ensures
            match (r, reconcile_spec(act@, exp@)) {
                (Ok(t), Ok(s)) => t@ == s,
                (Err(e), Err(s)) => e@ == s,
                _ => false,
            },
        decreases size(act@) + size(exp@),
    {
        proof {
            lemma_view_lists(*act);
            lemma_view_lists(*exp);
        }
        match (&*act.0, &*exp.0) {
            (TyKind::Error(_), _) | (TyKind::Pending, _) => {
                return Ok(act.deep_clone());
            },
            (_, TyKind::Error(_)) | (_, TyKind::Pending) => {
                return Ok(exp.deep_clone());
            },
            (TyKind::Infer, TyKind::Infer) => {
                return Err(TypeError::ambiguous());
            },
            _ => {},
        }
        if crate::types::ty::ty_eq(act, exp) {
            return Ok(act.deep_clone());
        }
        match (&*act.0, &*exp.0) {
            (TyKind::Infer, _) => {
                if exp.has_infer() {
                    Err(TypeError::ambiguous())
                } else {
                    Ok(exp.deep_clone())
                }
            },
            (_, TyKind::Infer) => {
                if act.has_infer() {
                    Err(TypeError::ambiguous())
                } else {
                    Ok(act.deep_clone())
                }
            },
            (TyKind::Nullable(act_in), TyKind::Nullable(exp_in)) => {
                match self.reconcile(act_in, exp_in) {
                    Ok(result) => Ok(self.mk_nullable(result)),
                    Err(err) => Err(TypeError::unassignable(act, exp).with_cause(err)),
                }
            },
            (_, TyKind::Nullable(exp_in)) => {
                match self.reconcile(act, exp_in) {
                    Ok(result) => Ok(self.mk_nullable(result)),
                    Err(err) => Err(TypeError::unassignable(act, exp).with_cause(err)),
                }
            },
            (TyKind::Array(act_in), TyKind::Array(exp_in)) => {
                match self.reconcile(act_in, exp_in) {
                    Ok(result) => Ok(self.mk_array(result)),
                    Err(err) => Err(TypeError::unassignable(act, exp).with_cause(err)),
                }
            },
            (TyKind::Tuple(act_in), TyKind::Tuple(exp_in)) => {
                match check_tuple_len(act_in.len(), exp_in.len()) {
                    Ok(_) => {},
                    Err(err) => {
                        return Err(err);
                    },
                }
                let ghost sa = tys_view(act_in@);
                let ghost se = tys_view(exp_in@);
                let ghost rs = reconcile_all(sa, se);
                let mut tys: Vec<Ty> = Vec::new();
                let mut errors: Vec<TypeError> = Vec::new();
                let mut i: usize = 0;
                while i < act_in.len()
                    invariant
                        i <= act_in.len(),
                        act_in.len() == exp_in.len(),
                        sa == tys_view(act_in@),
                        se == tys_view(exp_in@),
                        rs == reconcile_all(sa, se),
                        act@ == TyTree::Tuple(sa),
                        exp@ == TyTree::Tuple(se),
                        tys_view(tys@) == oks(rs.take(i as int)),
                        errs_view(errors@) == errs(rs.take(i as int)),
                    decreases act_in.len() - i,
                {
                    proof {
                        lemma_sizes_elem(sa, i as int);
                        lemma_sizes_elem(se, i as int);
                        lemma_oks_errs_step(rs, i as int);
                    }
                    match self.reconcile(&act_in[i], &exp_in[i]) {
                        Ok(t) => {
                            tys.push(t);
                            proof {
                                assert(tys_view(tys@) =~= oks(rs.take(i as int + 1)));
                            }
                        },
                        Err(e) => {
                            errors.push(e);
                            proof {
                                assert(errs_view(errors@) =~= errs(rs.take(i as int + 1)));
                            }
                        },
                    }
                    i = i + 1;
                }
                proof {
                    assert(rs.take(i as int) =~= rs);
                }
                if errors.len() == 0 {
                    Ok(self.mk_tuple(tys))
                } else {
                    Err(TypeError::unassignable(act, exp).with_causes(errors))
                }
            },
            (TyKind::Func(act_in), TyKind::Func(exp_in)) => {
                match check_arity(act_in.params.len(), exp_in.params.len()) {
                    Ok(_) => {},
                    Err(err) => {
                        return Err(err);
                    },
                }
                let ghost sa = tys_view(act_in.params@);
                let ghost se = tys_view(exp_in.params@);
                let ghost rs = reconcile_all(se, sa);
                let mut params: Vec<Ty> = Vec::new();
                let mut errors: Vec<TypeError> = Vec::new();
                let mut i: usize = 0;
                while i < act_in.params.len()
                    invariant
                        i <= act_in.params.len(),
                        act_in.params.len() == exp_in.params.len(),
                        sa == tys_view(act_in.params@),
                        se == tys_view(exp_in.params@),
                        rs == reconcile_all(se, sa),
                        act@ == TyTree::Func(sa, Box::new(act_in.ret@)),
                        exp@ == TyTree::Func(se, Box::new(exp_in.ret@)),
                        tys_view(params@) == oks(rs.take(i as int)),
                        errs_view(errors@) == errs(rs.take(i as int)),
                    decreases act_in.params.len() - i,
                {
                    proof {
                        lemma_sizes_elem(sa, i as int);
                        lemma_sizes_elem(se, i as int);
                        lemma_oks_errs_step(rs, i as int);
                    }
                    match self.reconcile(&exp_in.params[i], &act_in.params[i]) {
                        Ok(t) => {
                            params.push(t);
                            proof {
                                assert(tys_view(params@) =~= oks(rs.take(i as int + 1)));
                            }
                        },
                        Err(e) => {
                            errors.push(e);
                            proof {
                                assert(errs_view(errors@) =~= errs(rs.take(i as int + 1)));
                            }
                        },
                    }
                    i = i + 1;
                }
                proof {
                    assert(rs.take(i as int) =~= rs);
                }
                let ret = match self.reconcile(&act_in.ret, &exp_in.ret) {
                    Ok(ret) => ret,
                    Err(err) => {
                        errors.push(err);
                        self.mk_never()
                    },
                };
                proof {
                    assert(errs_view(errors@) =~= (match reconcile_spec(act_in.ret@, exp_in.ret@) {
                        Ok(_) => errs(rs),
                        Err(x) => errs(rs).push(x),
                    }));
                }
                if errors.len() == 0 {
                    Ok(self.mk_func(params, ret))
                } else {
                    Err(TypeError::unassignable(act, exp).with_causes(errors))
                }
            },
            (TyKind::Int(act_in), TyKind::Int(exp_in)) if act_in.rank_exec()
                <= exp_in.rank_exec() => Ok(exp.deep_clone()),
            (TyKind::UInt(act_in), TyKind::UInt(exp_in)) if act_in.rank_exec()
                <= exp_in.rank_exec() => Ok(exp.deep_clone()),
            (TyKind::Float(act_in), TyKind::Float(exp_in)) if act_in.rank_exec()
                <= exp_in.rank_exec() => Ok(exp.deep_clone()),
            (TyKind::Never, _) | (_, TyKind::Any) => Ok(exp.deep_clone()),
            _ => Err(TypeError::unassignable(act, exp)),
        }
    }
}

/// The (lower, upper) trees of a list of bounds.
pub open spec fn bounds_view(bs: Seq<TyBounds>) -> Seq<(TyTree, TyTree)> {
    bs.map_values(|b: TyBounds| (b.lower@, b.upper@))
}

/// Whether a tree is one of the sentinels `Error`, `Pending` and `Infer`.
pub open spec fn is_sentinel(t: TyTree) -> bool {
    t is Error || t is Pending || t is Infer
}

/// The pairs of (provided, expected) types that `update_bounds` descends
/// into, in order; parameters of functions swap sides.
pub open spec fn bound_children(act: TyTree, exp: TyTree) -> Seq<(TyTree, TyTree)> {
    if act is Var || exp is Var {
        Seq::empty()
    } else if is_sentinel(act) {
        match exp {
            TyTree::Nullable(e) => seq![(act, *e)],
            TyTree::Array(e) => seq![(act, *e)],
            TyTree::Tuple(es) => Seq::new(es.len(), |i: int| (act, es[i])),
            TyTree::Func(ps, r) => Seq::new(ps.len(), |i: int| (ps[i], act)).push((act, *r)),
            _ => Seq::empty(),
        }
    } else if is_sentinel(exp) {
        match act {
            TyTree::Nullable(a) => seq![(*a, exp)],
            TyTree::Array(a) => seq![(*a, exp)],
            TyTree::Tuple(xs) => Seq::new(xs.len(), |i: int| (xs[i], exp)),
            TyTree::Func(ps, r) => Seq::new(ps.len(), |i: int| (exp, ps[i])).push((*r, exp)),
            _ => Seq::empty(),
        }
    } else {
        match (act, exp) {
            (TyTree::Nullable(a), TyTree::Nullable(e)) => seq![(*a, *e)],
            (TyTree::Array(a), TyTree::Array(e)) => seq![(*a, *e)],
            (TyTree::Tuple(xs), TyTree::Tuple(es)) => if xs.len() == es.len() {
                Seq::new(xs.len(), |i: int| (xs[i], es[i]))
            } else {
                Seq::empty()
            },
            (TyTree::Func(pa, ra), TyTree::Func(pe, re)) => if pa.len() == pe.len() {
                Seq::new(pa.len(), |i: int| (pe[i], pa[i])).push((*ra, *re))
            } else {
                Seq::empty()
            },
            _ => Seq::empty(),
        }
    }
}

/// The bounds after comparing `exp` against `act`: a variable on the
/// provided side has its upper bound lowered to the meet with `exp`, one on
/// the expected side its lower bound raised to the join with `act`, and
/// otherwise the parts are compared in turn.  `None` where a variable has no
/// bounds.
pub open spec fn update_spec(act: TyTree, exp: TyTree, bs: Seq<(TyTree, TyTree)>) -> Option<
    Seq<(TyTree, TyTree)>,
>
    decreases size(act) + size(exp), bound_children(act, exp).len() + 1,
{
    match act {
        TyTree::Var(id) => if id < bs.len() {
            Some(bs.update(id as int, (bs[id as int].0, meet_spec(bs[id as int].1, exp))))
        } else {
            None
        },
        _ => match exp {
            TyTree::Var(id) => if id < bs.len() {
                Some(bs.update(id as int, (join_spec(bs[id as int].0, act), bs[id as int].1)))
            } else {
                None
            },
            _ => update_list(act, exp, bound_children(act, exp), bs),
        },
    }
}

/// The bounds after comparing each pair of `ps` in turn.
pub open spec fn update_list(
    act: TyTree,
    exp: TyTree,
    ps: Seq<(TyTree, TyTree)>,
    bs: Seq<(TyTree, TyTree)>,
) -> Option<Seq<(TyTree, TyTree)>>
    decreases size(act) + size(exp), ps.len(),
{
    if ps.len() == 0 {
        Some(bs)
    } else {
        match update_list(act, exp, ps.drop_last(), bs) {
            None => None,
            Some(b2) => if size(ps.last().0) + size(ps.last().1) < size(act) + size(exp) {
                update_spec(ps.last().0, ps.last().1, b2)
            } else {
                None
            },
        }
    }
}

proof fn lemma_update_prefix(
    act: TyTree,
    exp: TyTree,
    ps: Seq<(TyTree, TyTree)>,
    bs: Seq<(TyTree, TyTree)>,
    j: int,
)
    requires
        0 <= j <= ps.len(),
        update_list(act, exp, ps, bs) is Some,
    ensures
        update_list(act, exp, ps.take(j), bs) is Some,
    decreases ps.len(),
{
    if j < ps.len() {
        assert(ps.drop_last().take(j) =~= ps.take(j));
        lemma_update_prefix(act, exp, ps.drop_last(), bs, j);
    } else {
        assert(ps.take(j) =~= ps);
    }
}

impl TyCtx {
    /// Compares one more pair of parts, the `j`-th of `ps`.
    fn update_step(
        &self,
        Ghost(act): Ghost<TyTree>,
        Ghost(exp): Ghost<TyTree>,
        Ghost(ps): Ghost<Seq<(TyTree, TyTree)>>,
        Ghost(bs0): Ghost<Seq<(TyTree, TyTree)>>,
        Ghost(j): Ghost<int>,
        a: &Ty,
        e: &Ty,
        bounds: &mut Vec<TyBounds>,
    )
        requires
            0 <= j < ps.len(),
            update_list(act, exp, ps, bs0) is Some,
            bounds_view(old(bounds)@) == update_list(act, exp, ps.take(j), bs0)->Some_0,
            a@ == ps[j].0,
            e@ == ps[j].1,
        ensures
            update_list(act, exp, ps.take(j + 1), bs0) is Some,
            bounds_view(final(bounds)@) == update_list(act, exp, ps.take(j + 1), bs0)->Some_0,
        decreases size(act) + size(exp), 1nat,
    {
        proof {
            lemma_update_prefix(act, exp, ps, bs0, j);
            lemma_update_prefix(act, exp, ps, bs0, j + 1);
            assert(ps.take(j + 1).drop_last() =~= ps.take(j));
        }
        self.update_bounds(a, e, bounds);
    }

    /// Compares the expected type `exp` against the provided type `act`,
    /// extracts the resulting type parameter bounds, and applies them to `bounds`.
    /// This does not check that `act <: exp`; it is only used for accumulating bounds.
    #[verifier::rlimit(60)]
    pub fn update_bounds(&self, act: &Ty, exp: &Ty, bounds: &mut Vec<TyBounds>)
        requires
            update_spec(act@, exp@, bounds_view(old(bounds)@)) is Some,
        ensures
            bounds_view(final(bounds)@) == update_spec(
                act@,
                exp@,
                bounds_view(old(bounds)@),
            )->Some_0,
        decreases size(act@) + size(exp@), 2nat,
    {
        proof {
            lemma_view_lists(*act);
            lemma_view_lists(*exp);
        }
        let ghost bs0 = bounds_view(bounds@);
        match (&*act.0, &*exp.0) {
            (TyKind::Var(id), _) => {
                let i = id.0 as usize;
                let upper = self.meet(&bounds[i].upper, exp);
                let lower = bounds[i].lower.deep_clone();
                bounds.set(i, TyBounds { lower, upper });
                proof {
                    assert(bounds_view(bounds@) =~= update_spec(act@, exp@, bs0)->Some_0);
                }
                return;
            },
            (_, TyKind::Var(id)) => {
                let i = id.0 as usize;
                let lower = self.join(&bounds[i].lower, act);
                let upper = bounds[i].upper.deep_clone();
                bounds.set(i, TyBounds { lower, upper });
                proof {
                    assert(bounds_view(bounds@) =~= update_spec(act@, exp@, bs0)->Some_0);
                }
                return;
            },
            _ => {},
        }
        let ghost ps = bound_children(act@, exp@);
        proof {
            assert(ps.take(0) =~= Seq::<(TyTree, TyTree)>::empty());
        }
        match (&*act.0, &*exp.0) {
            (TyKind::Error(_), _) | (TyKind::Pending, _) | (TyKind::Infer, _) => match &*exp.0 {
                TyKind::Nullable(e) => {
                    self.update_step(
                        Ghost(act@), Ghost(exp@), Ghost(ps), Ghost(bs0), Ghost(0), act, e, bounds);
                },
                TyKind::Array(e) => {
                    self.update_step(
                        Ghost(act@), Ghost(exp@), Ghost(ps), Ghost(bs0), Ghost(0), act, e, bounds);
                },
                TyKind::Tuple(es) => {
                    let mut i: usize = 0;
                    while i < es.len()
                        invariant
                            i <= es.len(),
                            ps == bound_children(act@, exp@),
                            exp@ == TyTree::Tuple(tys_view(es@)),
                            is_sentinel(act@),
                            ps.len() == es.len(),
                            update_list(act@, exp@, ps, bs0) is Some,
                            update_list(act@, exp@, ps.take(i as int), bs0) is Some,
                            bounds_view(bounds@) == update_list(
                                act@,
                                exp@,
                                ps.take(i as int),
                                bs0,
                            )->Some_0,
                        decreases es.len() - i,
                    {
                        self.update_step(
                            Ghost(act@), Ghost(exp@), Ghost(ps), Ghost(bs0), Ghost(i as int), act,
                            &es[i], bounds);
                        i = i + 1;
                    }
                },
                TyKind::Func(f) => {
                    let mut i: usize = 0;
                    while i < f.params.len()
                        invariant
                            i <= f.params.len(),
                            ps == bound_children(act@, exp@),
                            exp@ == TyTree::Func(tys_view(f.params@), Box::new(f.ret@)),
                            is_sentinel(act@),
                            ps.len() == f.params.len() + 1,
                            update_list(act@, exp@, ps, bs0) is Some,
                            update_list(act@, exp@, ps.take(i as int), bs0) is Some,
                            bounds_view(bounds@) == update_list(
                                act@,
                                exp@,
                                ps.take(i as int),
                                bs0,
                            )->Some_0,
                        decreases f.params.len() - i,
                    {
                        self.update_step(
                            Ghost(act@), Ghost(exp@), Ghost(ps), Ghost(bs0), Ghost(i as int),
                            &f.params[i], act, bounds);
                        i = i + 1;
                    }
                    self.update_step(
                        Ghost(act@), Ghost(exp@), Ghost(ps), Ghost(bs0), Ghost(i as int), act,
                        &f.ret, bounds);
                },
                _ => {},
            },
            (_, TyKind::Error(_)) | (_, TyKind::Pending) | (_, TyKind::Infer) => match &*act.0 {
                TyKind::Nullable(a) => {
                    self.update_step(
                        Ghost(act@), Ghost(exp@), Ghost(ps), Ghost(bs0), Ghost(0), a, exp, bounds);
                },
                TyKind::Array(a) => {
                    self.update_step(
                        Ghost(act@), Ghost(exp@), Ghost(ps), Ghost(bs0), Ghost(0), a, exp, bounds);
                },
                TyKind::Tuple(xs) => {
                    let mut i: usize = 0;
                    while i < xs.len()
                        invariant
                            i <= xs.len(),
                            ps == bound_children(act@, exp@),
                            act@ == TyTree::Tuple(tys_view(xs@)),
                            is_sentinel(exp@),
                            !is_sentinel(act@),
                            ps.len() == xs.len(),
                            update_list(act@, exp@, ps, bs0) is Some,
                            update_list(act@, exp@, ps.take(i as int), bs0) is Some,
                            bounds_view(bounds@) == update_list(
                                act@,
                                exp@,
                                ps.take(i as int),
                                bs0,
                            )->Some_0,
                        decreases xs.len() - i,
                    {
                        self.update_step(
                            Ghost(act@), Ghost(exp@), Ghost(ps), Ghost(bs0), Ghost(i as int),
                            &xs[i], exp, bounds);
                        i = i + 1;
                    }
                },
                TyKind::Func(f) => {
                    let mut i: usize = 0;
                    while i < f.params.len()
                        invariant
                            i <= f.params.len(),
                            ps == bound_children(act@, exp@),
                            act@ == TyTree::Func(tys_view(f.params@), Box::new(f.ret@)),
                            is_sentinel(exp@),
                            !is_sentinel(act@),
                            ps.len() == f.params.len() + 1,
                            update_list(act@, exp@, ps, bs0) is Some,
                            update_list(act@, exp@, ps.take(i as int), bs0) is Some,
                            bounds_view(bounds@) == update_list(
                                act@,
                                exp@,
                                ps.take(i as int),
                                bs0,
                            )->Some_0,
                        decreases f.params.len() - i,
                    {
                        self.update_step(
                            Ghost(act@), Ghost(exp@), Ghost(ps), Ghost(bs0), Ghost(i as int), exp,
                            &f.params[i], bounds);
                        i = i + 1;
                    }
                    self.update_step(
                        Ghost(act@), Ghost(exp@), Ghost(ps), Ghost(bs0), Ghost(i as int),
                        &f.ret, exp, bounds);
                },
                _ => {},
            },
            (TyKind::Nullable(a), TyKind::Nullable(e)) => {
                self.update_step(
                    Ghost(act@), Ghost(exp@), Ghost(ps), Ghost(bs0), Ghost(0), a, e, bounds);
            },
            (TyKind::Array(a), TyKind::Array(e)) => {
                self.update_step(
                    Ghost(act@), Ghost(exp@), Ghost(ps), Ghost(bs0), Ghost(0), a, e, bounds);
            },
            (TyKind::Tuple(xs), TyKind::Tuple(es)) => if xs.len() == es.len() {
                let mut i: usize = 0;
                while i < xs.len()
                    invariant
                        i <= xs.len(),
                        xs.len() == es.len(),
                        ps == bound_children(act@, exp@),
                        act@ == TyTree::Tuple(tys_view(xs@)),
                        exp@ == TyTree::Tuple(tys_view(es@)),
                        ps.len() == xs.len(),
                        update_list(act@, exp@, ps, bs0) is Some,
                        update_list(act@, exp@, ps.take(i as int), bs0) is Some,
                        bounds_view(bounds@) == update_list(
                            act@,
                            exp@,
                            ps.take(i as int),
                            bs0,
                        )->Some_0,
                    decreases xs.len() - i,
                {
                    self.update_step(
                        Ghost(act@), Ghost(exp@), Ghost(ps), Ghost(bs0), Ghost(i as int), &xs[i],
                        &es[i], bounds);
                    i = i + 1;
                }
            },
            (TyKind::Func(fa), TyKind::Func(fe)) => if fa.params.len() == fe.params.len() {
                let mut i: usize = 0;
                while i < fa.params.len()
                    invariant
                        i <= fa.params.len(),
                        fa.params.len() == fe.params.len(),
                        ps == bound_children(act@, exp@),
                        act@ == TyTree::Func(tys_view(fa.params@), Box::new(fa.ret@)),
                        exp@ == TyTree::Func(tys_view(fe.params@), Box::new(fe.ret@)),
                        ps.len() == fa.params.len() + 1,
                        update_list(act@, exp@, ps, bs0) is Some,
                        update_list(act@, exp@, ps.take(i as int), bs0) is Some,
                        bounds_view(bounds@) == update_list(
                            act@,
                            exp@,
                            ps.take(i as int),
                            bs0,
                        )->Some_0,
                    decreases fa.params.len() - i,
                {
                    self.update_step(
                        Ghost(act@), Ghost(exp@), Ghost(ps), Ghost(bs0), Ghost(i as int),
                        &fe.params[i], &fa.params[i], bounds);
                    i = i + 1;
                }
                self.update_step(
                    Ghost(act@), Ghost(exp@), Ghost(ps), Ghost(bs0), Ghost(i as int), &fa.ret,
                    &fe.ret, bounds);
            },
            _ => {},
        }
        proof {
            assert(ps.take(ps.len() as int) =~= ps);
            assert(update_spec(act@, exp@, bs0) == update_list(act@, exp@, ps, bs0));
            assert(bounds_view(bounds@) == update_list(act@, exp@, ps, bs0)->Some_0);
        }
    }
}

/// The number of `Infer` nodes of a tree.
pub open spec fn infers(t: TyTree) -> nat
    decreases t,
{
    match t {
        TyTree::Infer => 1,
        TyTree::Nullable(a) => infers(*a),
        TyTree::Array(a) => infers(*a),
        TyTree::Tuple(s) => infers_seq(s),
        TyTree::Func(p, r) => infers_seq(p) + infers(*r),
        _ => 0,
    }
}

/// The number of `Infer` nodes of a sequence of trees.
pub open spec fn infers_seq(s: Seq<TyTree>) -> nat
    decreases s,
{
    if s.len() == 0 {
        0
    } else {
        infers_seq(s.drop_last()) + infers(s.last())
    }
}

/// The tree with its `Infer` nodes replaced, from left to right, by the
/// variables numbered from `k` on.
pub open spec fn inst(t: TyTree, k: nat) -> TyTree
    decreases t,
{
    match t {
        TyTree::Infer => TyTree::Var(k as u32),
        TyTree::Nullable(a) => TyTree::Nullable(Box::new(inst(*a, k))),
        TyTree::Array(a) => TyTree::Array(Box::new(inst(*a, k))),
        TyTree::Tuple(s) => TyTree::Tuple(
            Seq::new(
                s.len(),
                |i: int|
                    if 0 <= i < s.len() {
                        inst(s[i], k + infers_seq(s.take(i)))
                    } else {
                        TyTree::Never
                    },
            ),
        ),
        TyTree::Func(p, r) => TyTree::Func(
            Seq::new(
                p.len(),
                |i: int|
                    if 0 <= i < p.len() {
                        inst(p[i], k + infers_seq(p.take(i)))
                    } else {
                        TyTree::Never
                    },
            ),
            Box::new(inst(*r, k + infers_seq(p))),
        ),
        _ => t,
    }
}

/// Whether every parameter of a tree is below `n`.
pub open spec fn params_below(t: TyTree, n: nat) -> bool
    decreases t,
{
    match t {
        TyTree::Param(i) => i < n,
        TyTree::Nullable(a) => params_below(*a, n),
        TyTree::Array(a) => params_below(*a, n),
        TyTree::Tuple(s) => forall|i: int| 0 <= i < s.len() ==> params_below(s[i], n),
        TyTree::Func(p, r) => (forall|i: int| 0 <= i < p.len() ==> params_below(p[i], n))
            && params_below(*r, n),
        _ => true,
    }
}

/// The tree with each parameter replaced by its instantiation in `ps`.
pub open spec fn subst(t: TyTree, ps: Seq<TyTree>) -> TyTree
    decreases t,
{
    match t {
        TyTree::Param(i) => if i < ps.len() {
            ps[i as int]
        } else {
            t
        },
        TyTree::Nullable(a) => TyTree::Nullable(Box::new(subst(*a, ps))),
        TyTree::Array(a) => TyTree::Array(Box::new(subst(*a, ps))),
        TyTree::Tuple(s) => TyTree::Tuple(
            Seq::new(
                s.len(),
                |i: int|
                    if 0 <= i < s.len() {
                        subst(s[i], ps)
                    } else {
                        TyTree::Never
                    },
            ),
        ),
        TyTree::Func(p, r) => TyTree::Func(
            Seq::new(
                p.len(),
                |i: int|
                    if 0 <= i < p.len() {
                        subst(p[i], ps)
                    } else {
                        TyTree::Never
                    },
            ),
            Box::new(subst(*r, ps)),
        ),
        _ => t,
    }
}

/// The tree with each parameter replaced by one of its bounds: the upper one
/// where `upper` holds, which flips in the parameters of a function.
pub open spec fn subst_bounds(t: TyTree, bs: Seq<(TyTree, TyTree)>, upper: bool) -> TyTree
    decreases t,
{
    match t {
        TyTree::Param(i) => if i < bs.len() {
            if upper {
                bs[i as int].1
            } else {
                bs[i as int].0
            }
        } else {
            t
        },
        TyTree::Nullable(a) => TyTree::Nullable(Box::new(subst_bounds(*a, bs, upper))),
        TyTree::Array(a) => TyTree::Array(Box::new(subst_bounds(*a, bs, upper))),
        TyTree::Tuple(s) => TyTree::Tuple(
            Seq::new(
                s.len(),
                |i: int|
                    if 0 <= i < s.len() {
                        subst_bounds(s[i], bs, upper)
                    } else {
                        TyTree::Never
                    },
            ),
        ),
        TyTree::Func(p, r) => TyTree::Func(
            Seq::new(
                p.len(),
                |i: int|
                    if 0 <= i < p.len() {
                        subst_bounds(p[i], bs, !upper)
                    } else {
                        TyTree::Never
                    },
            ),
            Box::new(subst_bounds(*r, bs, upper)),
        ),
        _ => t,
    }
}

proof fn lemma_infers_step(s: Seq<TyTree>, i: int)
    requires
        0 <= i < s.len(),
    ensures
        infers_seq(s.take(i + 1)) == infers_seq(s.take(i)) + infers(s[i]),
        infers_seq(s.take(i + 1)) <= infers_seq(s),
    decreases s.len(),
{
    assert(s.take(i + 1).drop_last() =~= s.take(i));
    if i + 1 < s.len() {
        lemma_infers_step(s.drop_last(), i);
        assert(s.drop_last().take(i + 1) =~= s.take(i + 1));
    } else {
        assert(s.take(i + 1) =~= s);
    }
}

impl TyCtx {
    /// Creates an empty pair of type bounds
    pub fn new_bounds(&self) -> (r: TyBounds)
        ensures
            r.lower@ == TyTree::Never,
            r.upper@ == TyTree::Any,
    {
        TyBounds { lower: self.mk_never(), upper: self.mk_any() }
    }

    fn inst_ty(&self, t: &Ty, cnt: &mut u32) -> (r: Ty)
        requires
            *old(cnt) + infers(t@) <= u32::MAX,
        ensures
            r@ == inst(t@, *old(cnt) as nat),
            *final(cnt) == *old(cnt) + infers(t@),
        decreases t,
    {
        proof {
            lemma_view_lists(*t);
        }
        match &*t.0 {
            TyKind::Infer => {
                let v = self.mk_var(crate::types::ty::VarId(*cnt));
                *cnt = *cnt + 1;
                v
            },
            TyKind::Nullable(a) => {
                let a2 = self.inst_ty(a, cnt);
                self.mk_nullable(a2)
            },
            TyKind::Array(a) => {
                let a2 = self.inst_ty(a, cnt);
                self.mk_array(a2)
            },
            TyKind::Tuple(v) => {
                let ghost k0 = *cnt as nat;
                let ghost s = tys_view(v@);
                let out = self.inst_all(v, cnt);
                let r = self.mk_tuple(out);
                proof {
                    assert(tys_view(out@) =~= inst(t@, k0)->Tuple_0);
                }
                r
            },
            TyKind::Func(f) => {
                let ghost k0 = *cnt as nat;
                let ghost s = tys_view(f.params@);
                let out = self.inst_all(&f.params, cnt);
                let ret = self.inst_ty(&f.ret, cnt);
                let r = self.mk_func(out, ret);
                proof {
                    assert(tys_view(out@) =~= inst(t@, k0)->Func_0);
                }
                r
            },
            _ => t.deep_clone(),
        }
    }

    fn inst_all(&self, v: &Vec<Ty>, cnt: &mut u32) -> (r: Vec<Ty>)
        requires
            *old(cnt) + infers_seq(tys_view(v@)) <= u32::MAX,
        ensures
            r.len() == v.len(),
            forall|i: int|
                0 <= i < v.len() ==> r@[i]@ == inst(
                    v@[i]@,
                    (*old(cnt) + infers_seq(tys_view(v@).take(i))) as nat,
                ),
            *final(cnt) == *old(cnt) + infers_seq(tys_view(v@)),
        decreases v,
    {
        let ghost k0 = *cnt as nat;
        let ghost s = tys_view(v@);
        let mut r: Vec<Ty> = Vec::new();
        let mut i: usize = 0;
        proof {
            assert(s.take(0) =~= Seq::<TyTree>::empty());
        }
        while i < v.len()
            invariant
                i <= v.len(),
                s == tys_view(v@),
                k0 + infers_seq(s) <= u32::MAX,
                *cnt == k0 + infers_seq(s.take(i as int)),
                r.len() == i,
                forall|j: int|
                    0 <= j < i ==> r@[j]@ == inst(v@[j]@, (k0 + infers_seq(s.take(j))) as nat),
            decreases v.len() - i,
        {
            proof {
                lemma_infers_step(s, i as int);
            }
            r.push(self.inst_ty(&v[i], cnt));
            i = i + 1;
        }
        proof {
            assert(s.take(i as int) =~= s);
        }
        r
    }

    /// Instantiates type arguments with inference variables,
    /// and returns the number of inference variables produced
    pub fn instantiate(&self, params: &mut Vec<Ty>) -> (r: usize)
        requires
            infers_seq(tys_view(old(params)@)) <= u32::MAX,
        ensures
            r == infers_seq(tys_view(old(params)@)),
            final(params).len() == old(params).len(),
            forall|i: int|
                0 <= i < old(params).len() ==> final(params)@[i]@ == inst(
                    old(params)@[i]@,
                    infers_seq(tys_view(old(params)@).take(i)),
                ),
    {
        let mut var_cnt: u32 = 0;
        let ghost s = tys_view(params@);
        let ghost old_params = params@;
        let mut i: usize = 0;
        proof {
            assert(s.take(0) =~= Seq::<TyTree>::empty());
        }
        while i < params.len()
            invariant
                i <= params.len(),
                params.len() == old_params.len(),
                s == tys_view(old_params),
                infers_seq(s) <= u32::MAX,
                var_cnt == infers_seq(s.take(i as int)),
                forall|j: int| i <= j < params.len() ==> params@[j] == old_params[j],
                forall|j: int|
                    0 <= j < i ==> params@[j]@ == inst(old_params[j]@, infers_seq(s.take(j))),
            decreases params.len() - i,
        {
            proof {
                lemma_infers_step(s, i as int);
            }
            let t = self.inst_ty(&params[i], &mut var_cnt);
            params.set(i, t);
            i = i + 1;
        }
        proof {
            assert(s.take(i as int) =~= s);
        }
        var_cnt as usize
    }

    /// Substitutes occurances of type parameters in the type with their instantiations
    pub fn substitute_params(&self, ty: &Ty, params: &[Ty]) -> (r: Ty)
        requires
            params_below(ty@, params@.len()),
        ensures
            r@ == subst(ty@, tys_view(params@)),
        decreases ty,
    {
        proof {
            lemma_view_lists(*ty);
        }
        match &*ty.0 {
            TyKind::Param(idx) => params[idx.0 as usize].deep_clone(),
            TyKind::Nullable(a) => self.mk_nullable(self.substitute_params(a, params)),
            TyKind::Array(a) => self.mk_array(self.substitute_params(a, params)),
            TyKind::Tuple(v) => {
                proof {
                    assert forall|i: int| 0 <= i < v.len() implies params_below(
                        #[trigger] v@[i]@,
                        params@.len(),
                    ) by {
                        assert(tys_view(v@)[i] == v@[i]@);
                    }
                }
                let out = self.substitute_all(v, params);
                let r = self.mk_tuple(out);
                proof {
                    assert(tys_view(out@) =~= subst(ty@, tys_view(params@))->Tuple_0);
                }
                r
            },
            TyKind::Func(f) => {
                proof {
                    assert forall|i: int| 0 <= i < f.params.len() implies params_below(
                        #[trigger] f.params@[i]@,
                        params@.len(),
                    ) by {
                        assert(tys_view(f.params@)[i] == f.params@[i]@);
                    }
                }
                let out = self.substitute_all(&f.params, params);
                let ret = self.substitute_params(&f.ret, params);
                let r = self.mk_func(out, ret);
                proof {
                    assert(tys_view(out@) =~= subst(ty@, tys_view(params@))->Func_0);
                }
                r
            },
            _ => ty.deep_clone(),
        }
    }

    fn substitute_all(&self, v: &Vec<Ty>, params: &[Ty]) -> (r: Vec<Ty>)
        requires
            forall|i: int| 0 <= i < v.len() ==> params_below(#[trigger] v@[i]@, params@.len()),
        ensures
            r.len() == v.len(),
            forall|i: int| 0 <= i < v.len() ==> r@[i]@ == subst(v@[i]@, tys_view(params@)),
        decreases v,
    {
        let mut r: Vec<Ty> = Vec::new();
        let mut i: usize = 0;
        while i < v.len()
            invariant
                i <= v.len(),
                forall|i: int| 0 <= i < v.len() ==> params_below(#[trigger] v@[i]@, params@.len()),
                r.len() == i,
                forall|j: int| 0 <= j < i ==> r@[j]@ == subst(v@[j]@, tys_view(params@)),
            decreases v.len() - i,
        {
            r.push(self.substitute_params(&v[i], params));
            i = i + 1;
        }
        r
    }

    /// Substitutes occurances of type variables with their current upper or lower bound
    pub fn substitute_vars(&self, ty: &Ty, bounds: &[TyBounds], bound: Bound) -> (r: Ty)
        requires
            params_below(ty@, bounds@.len()),
        ensures
            r@ == subst_bounds(ty@, bounds_view(bounds@), bound == Bound::Upper),
        decreases ty,
    {
        proof {
            lemma_view_lists(*ty);
        }
        match &*ty.0 {
            TyKind::Param(idx) => match bound {
                Bound::Upper => bounds[idx.0 as usize].upper.deep_clone(),
                Bound::Lower => bounds[idx.0 as usize].lower.deep_clone(),
            },
            TyKind::Nullable(a) => self.mk_nullable(self.substitute_vars(a, bounds, bound)),
            TyKind::Array(a) => self.mk_array(self.substitute_vars(a, bounds, bound)),
            TyKind::Tuple(v) => {
                proof {
                    assert forall|i: int| 0 <= i < v.len() implies params_below(
                        #[trigger] v@[i]@,
                        bounds@.len(),
                    ) by {
                        assert(tys_view(v@)[i] == v@[i]@);
                    }
                }
                let out = self.substitute_vars_all(v, bounds, bound);
                let r = self.mk_tuple(out);
                proof {
                    assert(tys_view(out@) =~= subst_bounds(
                        ty@,
                        bounds_view(bounds@),
                        bound == Bound::Upper,
                    )->Tuple_0);
                }
                r
            },
            TyKind::Func(f) => {
                let flipped = match bound {
                    Bound::Upper => Bound::Lower,
                    Bound::Lower => Bound::Upper,
                };
                proof {
                    assert forall|i: int| 0 <= i < f.params.len() implies params_below(
                        #[trigger] f.params@[i]@,
                        bounds@.len(),
                    ) by {
                        assert(tys_view(f.params@)[i] == f.params@[i]@);
                    }
                }
                let out = self.substitute_vars_all(&f.params, bounds, flipped);
                let ret = self.substitute_vars(&f.ret, bounds, bound);
                let r = self.mk_func(out, ret);
                proof {
                    assert(tys_view(out@) =~= subst_bounds(
                        ty@,
                        bounds_view(bounds@),
                        bound == Bound::Upper,
                    )->Func_0);
                }
                r
            },
            _ => ty.deep_clone(),
        }
    }

    fn substitute_vars_all(&self, v: &Vec<Ty>, bounds: &[TyBounds], bound: Bound) -> (r: Vec<Ty>)
        requires
            forall|i: int| 0 <= i < v.len() ==> params_below(#[trigger] v@[i]@, bounds@.len()),
        ensures
            r.len() == v.len(),
            forall|i: int|
                0 <= i < v.len() ==> r@[i]@ == subst_bounds(
                    v@[i]@,
                    bounds_view(bounds@),
                    bound == Bound::Upper,
                ),
        decreases v,
    {
        let mut r: Vec<Ty> = Vec::new();
        let mut i: usize = 0;
        while i < v.len()
            invariant
                i <= v.len(),
                forall|i: int| 0 <= i < v.len() ==> params_below(#[trigger] v@[i]@, bounds@.len()),
                r.len() == i,
                forall|j: int|
                    0 <= j < i ==> r@[j]@ == subst_bounds(
                        v@[j]@,
                        bounds_view(bounds@),
                        bound == Bound::Upper,
                    ),
            decreases v.len() - i,
        {
            r.push(self.substitute_vars(&v[i], bounds, bound));
            i = i + 1;
        }
        r
    }
}

} // verus!
