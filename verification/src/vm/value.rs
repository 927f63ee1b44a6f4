//! The values the machine computes with, when two of them are equal, and
//! how they are written.
use vstd::prelude::*;

use crate::ast::Symbol;
use crate::escape::{escape, escape_all};
use crate::interner::{Index, SymTable};
use crate::text::{decimal, push_decimal, push_str};
use crate::vm::bigint::{int_eq, int_text, int_to_string, Int};
use crate::vm::module::FuncId;

verus! {

/// A value of the machine. A float is held by its bits.
#[derive(Debug)]
pub enum Value {
    Unit,
    Null,
    Bool(bool),
    Int(Int),
    Float32(u32),
    Float64(u64),
    Func(FuncId),
    Str(String),
    Array(Vec<Value>),
    Tuple(Vec<Value>),
    Struct(Vec<(Symbol, Value)>),
    Variant(Symbol, Box<Value>),
}

/// A value, with integers, strings and symbols by what they stand for.
pub enum ValueV {
    Unit,
    Null,
    Bool(bool),
    Int(int),
    Float32(u32),
    Float64(u64),
    Func(u32),
    Str(Seq<char>),
    Array(Seq<ValueV>),
    Tuple(Seq<ValueV>),
    Struct(Seq<(nat, ValueV)>),
    Variant(nat, Box<ValueV>),
}

pub open spec fn value_v(v: Value) -> ValueV
    decreases v,
{
    match v {
        Value::Unit => ValueV::Unit,
        Value::Null => ValueV::Null,
        Value::Bool(b) => ValueV::Bool(b),
        Value::Int(i) => ValueV::Int(i.value()),
        Value::Float32(b) => ValueV::Float32(b),
        Value::Float64(b) => ValueV::Float64(b),
        Value::Func(f) => ValueV::Func(f.0),
        Value::Str(s) => ValueV::Str(s@),
        Value::Array(vs) => ValueV::Array(values_v(vs)),
        Value::Tuple(vs) => ValueV::Tuple(values_v(vs)),
        Value::Struct(fs) => ValueV::Struct(fields_v(fs)),
        Value::Variant(tag, inner) => ValueV::Variant(tag.index_of(), Box::new(value_v(*inner))),
    }
}

pub open spec fn values_v(vs: Vec<Value>) -> Seq<ValueV>
    decreases vs,
{
    Seq::new(
        vs@.len(),
        |i: int|
            if 0 <= i < vs@.len() {
                value_v(vs@[i])
            } else {
                ValueV::Unit
            },
    )
}

pub open spec fn fields_v(fs: Vec<(Symbol, Value)>) -> Seq<(nat, ValueV)>
    decreases fs,
{
    Seq::new(
        fs@.len(),
        |i: int|
            if 0 <= i < fs@.len() {
                (fs@[i].0.index_of(), value_v(fs@[i].1))
            } else {
                (0, ValueV::Unit)
            },
    )
}

/// Whether the bits of an `f32` are a NaN.
pub open spec fn f32_is_nan(b: u32) -> bool {
    (b & 0x7f80_0000) == 0x7f80_0000 && (b & 0x007f_ffff) != 0
}

/// Whether the bits of an `f64` are a NaN.
pub open spec fn f64_is_nan(b: u64) -> bool {
    (b & 0x7ff0_0000_0000_0000) == 0x7ff0_0000_0000_0000 && (b & 0x000f_ffff_ffff_ffff) != 0
}

/// Two `f32`s are equal where both are NaN, or they are equal as numbers:
/// the same bits, or both zero of either sign.
pub open spec fn f32_eq(a: u32, b: u32) -> bool {
    if f32_is_nan(a) || f32_is_nan(b) {
        f32_is_nan(a) && f32_is_nan(b)
    } else {
        a == b || ((a & 0x7fff_ffff) == 0 && (b & 0x7fff_ffff) == 0)
    }
}

/// Two `f64`s are equal where both are NaN, or they are equal as numbers.
pub open spec fn f64_eq(a: u64, b: u64) -> bool {
    if f64_is_nan(a) || f64_is_nan(b) {
        f64_is_nan(a) && f64_is_nan(b)
    } else {
        a == b || ((a & 0x7fff_ffff_ffff_ffff) == 0 && (b & 0x7fff_ffff_ffff_ffff) == 0)
    }
}

/// When two values are equal: of the same kind, with equal contents;
/// floats compare as numbers, with all NaNs equal.
pub open spec fn value_eq(a: ValueV, b: ValueV) -> bool
    decreases a, 0nat,
{
    match (a, b) {
        (ValueV::Float32(x), ValueV::Float32(y)) => f32_eq(x, y),
        (ValueV::Float64(x), ValueV::Float64(y)) => f64_eq(x, y),
        (ValueV::Array(xs), ValueV::Array(ys)) => xs.len() == ys.len() && values_eq(xs, ys, 0),
        (ValueV::Tuple(xs), ValueV::Tuple(ys)) => xs.len() == ys.len() && values_eq(xs, ys, 0),
        (ValueV::Struct(xs), ValueV::Struct(ys)) => xs.len() == ys.len() && fields_eq(xs, ys, 0),
        (ValueV::Variant(s, x), ValueV::Variant(t, y)) => s == t && value_eq(*x, *y),
        (ValueV::Array(_), _) | (ValueV::Tuple(_), _) | (ValueV::Struct(_), _) | (
            ValueV::Variant(_, _),
            _,
        ) | (ValueV::Float32(_), _) | (ValueV::Float64(_), _) => false,
        _ => a == b,
    }
}

/// Whether `xs[i..]` and `ys[i..]` are equal element by element.
pub open spec fn values_eq(xs: Seq<ValueV>, ys: Seq<ValueV>, i: int) -> bool
    decreases xs, xs.len() - i,
{
    if 0 <= i < xs.len() {
        value_eq(xs[i], ys[i]) && values_eq(xs, ys, i + 1)
    } else {
        true
    }
}

/// Whether the fields `xs[i..]` and `ys[i..]` have the same names and equal
/// values.
pub open spec fn fields_eq(xs: Seq<(nat, ValueV)>, ys: Seq<(nat, ValueV)>, i: int) -> bool
    decreases xs, xs.len() - i,
{
    if 0 <= i < xs.len() {
        xs[i].0 == ys[i].0 && value_eq(xs[i].1, ys[i].1) && fields_eq(xs, ys, i + 1)
    } else {
        true
    }
}

/// A part of a value's text: text, or a float that is written as `{}`
/// writes it.
#[derive(Debug)]
pub enum Piece {
    Text(String),
    Float32(u32),
    Float64(u64),
}

/// A piece of text, as a value.
pub enum PieceV {
    Text(Seq<char>),
    Float32(u32),
    Float64(u64),
}

pub open spec fn piece_v(p: Piece) -> PieceV {
    match p {
        Piece::Text(s) => PieceV::Text(s@),
        Piece::Float32(b) => PieceV::Float32(b),
        Piece::Float64(b) => PieceV::Float64(b),
    }
}

pub open spec fn pieces_v(ps: Seq<Piece>) -> Seq<PieceV> {
    ps.map_values(|p: Piece| piece_v(p))
}

/// Every symbol in a value has a name in a table of `n` names.
pub open spec fn value_syms(v: ValueV, n: nat) -> bool
    decreases v, 0nat,
{
    match v {
        ValueV::Array(xs) => values_syms(xs, n, 0),
        ValueV::Tuple(xs) => values_syms(xs, n, 0),
        ValueV::Struct(fs) => fields_syms(fs, n, 0),
        ValueV::Variant(tag, x) => tag < n && value_syms(*x, n),
        _ => true,
    }
}

pub open spec fn values_syms(xs: Seq<ValueV>, n: nat, i: int) -> bool
    decreases xs, xs.len() - i,
{
    if 0 <= i < xs.len() {
        value_syms(xs[i], n) && values_syms(xs, n, i + 1)
    } else {
        true
    }
}

pub open spec fn fields_syms(fs: Seq<(nat, ValueV)>, n: nat, i: int) -> bool
    decreases fs, fs.len() - i,
{
    if 0 <= i < fs.len() {
        fs[i].0 < n && value_syms(fs[i].1, n) && fields_syms(fs, n, i + 1)
    } else {
        true
    }
}

/// A text piece.
pub open spec fn text(s: Seq<char>) -> Seq<PieceV> {
    seq![PieceV::Text(s)]
}

/// How a value is written, names taken from `names`: `()` and `null`,
/// `true` and `false`, integers in decimal, floats as `{}` writes them,
/// strings quoted and escaped, `[a, b]` for arrays, `()`, `(a,)` and
/// `(a, b)` for tuples, `{}` and `{ x: a, y: b }` for structs, `tag(a)`
/// for variants and `<func:id>` for functions.
pub open spec fn value_pieces(v: ValueV, names: Seq<Seq<char>>) -> Seq<PieceV>
    decreases v, 1nat,
{
    match v {
        ValueV::Unit => text("()"@),
        ValueV::Null => text("null"@),
        ValueV::Bool(b) => text(if b {
            "true"@
        } else {
            "false"@
        }),
        ValueV::Int(i) => text(int_text(i)),
        ValueV::Float32(b) => seq![PieceV::Float32(b)],
        ValueV::Float64(b) => seq![PieceV::Float64(b)],
        ValueV::Str(s) => text(seq!['"'] + escape_all(s) + seq!['"']),
        ValueV::Array(xs) => if xs.len() == 0 {
            text("[]"@)
        } else {
            text("["@) + value_pieces(xs[0], names) + rest_pieces(xs, 1, names) + text("]"@)
        },
        ValueV::Tuple(xs) => if xs.len() == 0 {
            text("()"@)
        } else if xs.len() == 1 {
            text("("@) + value_pieces(xs[0], names) + text(",)"@)
        } else {
            text("("@) + value_pieces(xs[0], names) + rest_pieces(xs, 1, names) + text(")"@)
        },
        ValueV::Struct(fs) => if fs.len() == 0 {
            text("{}"@)
        } else {
            text("{ "@ + names[fs[0].0 as int] + ": "@) + value_pieces(fs[0].1, names)
                + rest_fields(fs, 1, names) + text(" }"@)
        },
        ValueV::Variant(tag, x) => text(names[tag as int] + "("@) + value_pieces(*x, names) + text(
            ")"@,
        ),
        ValueV::Func(id) => text("<func:"@ + decimal(id as nat) + ">"@),
    }
}

/// `, a` for each value of `xs[i..]`.
pub open spec fn rest_pieces(xs: Seq<ValueV>, i: int, names: Seq<Seq<char>>) -> Seq<PieceV>
    decreases xs, xs.len() - i,
{
    if 0 <= i < xs.len() {
        text(", "@) + value_pieces(xs[i], names) + rest_pieces(xs, i + 1, names)
    } else {
        Seq::empty()
    }
}

/// `, x: a` for each field of `fs[i..]`.
pub open spec fn rest_fields(fs: Seq<(nat, ValueV)>, i: int, names: Seq<Seq<char>>) -> Seq<
    PieceV,
>
    decreases fs, fs.len() - i,
{
    if 0 <= i < fs.len() {
        text(", "@ + names[fs[i].0 as int] + ": "@) + value_pieces(fs[i].1, names) + rest_fields(
            fs,
            i + 1,
            names,
        )
    } else {
        Seq::empty()
    }
}

fn push_text(out: &mut Vec<Piece>, s: &str)
    ensures
        pieces_v(final(out)@) == pieces_v(old(out)@) + text(s@),
{
    let mut t = String::new();
    push_str(&mut t, s);
    out.push(Piece::Text(t));
    assert(pieces_v(out@) =~= pieces_v(old(out)@) + text(s@));
}

fn push_string(out: &mut Vec<Piece>, s: String)
    ensures
        pieces_v(final(out)@) == pieces_v(old(out)@) + text(s@),
{
    let ghost t = s@;
    out.push(Piece::Text(s));
    assert(pieces_v(out@) =~= pieces_v(old(out)@) + text(t));
}

impl Value {
    pub fn new_null() -> (r: Self)
        ensures
            value_v(r) == ValueV::Null,
    {
        Value::Null
    }

    pub fn new_unit() -> (r: Self)
        ensures
            value_v(r) == ValueV::Unit,
    {
        Value::Unit
    }

    pub fn new_bool(value: bool) -> (r: Self)
        ensures
            value_v(r) == ValueV::Bool(value),
    {
        Value::Bool(value)
    }

    pub fn new_int(value: Int) -> (r: Self)
        ensures
            value_v(r) == ValueV::Int(value.value()),
    {
        Value::Int(value)
    }

    /// An `f32`, by its bits.
    pub fn new_f32(bits: u32) -> (r: Self)
        ensures
            value_v(r) == ValueV::Float32(bits),
    {
        Value::Float32(bits)
    }

    /// An `f64`, by its bits.
    pub fn new_f64(bits: u64) -> (r: Self)
        ensures
            value_v(r) == ValueV::Float64(bits),
    {
        Value::Float64(bits)
    }

    pub fn new_str(value: &str) -> (r: Self)
        ensures
            value_v(r) == ValueV::Str(value@),
    {
        Value::Str(value.to_owned())
    }

    pub fn new_array(values: Vec<Value>) -> (r: Self)
        ensures
            value_v(r) == ValueV::Array(values_v(values)),
    {
        Value::Array(values)
    }

    pub fn new_tuple(values: Vec<Value>) -> (r: Self)
        ensures
            value_v(r) == ValueV::Tuple(values_v(values)),
    {
        Value::Tuple(values)
    }

    pub fn new_variant(tag: Symbol, inner: Value) -> (r: Self)
        ensures
            value_v(r) == ValueV::Variant(tag.index_of(), Box::new(value_v(inner))),
    {
        Value::Variant(tag, Box::new(inner))
    }

    pub fn new_func(func_id: FuncId) -> (r: Self)
        ensures
            value_v(r) == ValueV::Func(func_id.0),
    {
        Value::Func(func_id)
    }

    /// The boolean a boolean value holds.
    pub fn as_bool(&self) -> (r: bool)
        requires
            value_v(*self) is Bool,
        ensures
            value_v(*self) == ValueV::Bool(r),
    {
        match self {
            Value::Bool(b) => *b,
            _ => false,
        }
    }

    /// The integer an integer value holds.
    pub fn as_int(&self) -> (r: Int)
        requires
            value_v(*self) is Int,
        ensures
            value_v(*self) == ValueV::Int(r.value()),
    {
        match self {
            Value::Int(i) => i.copy(),
            _ => Int::zero(),
        }
    }

    /// The bits of an `f32` value.
    pub fn as_f32(&self) -> (r: u32)
        requires
            value_v(*self) is Float32,
        ensures
            value_v(*self) == ValueV::Float32(r),
    {
        match self {
            Value::Float32(b) => *b,
            _ => 0,
        }
    }

    /// The bits of an `f64` value.
    pub fn as_f64(&self) -> (r: u64)
        requires
            value_v(*self) is Float64,
        ensures
            value_v(*self) == ValueV::Float64(r),
    {
        match self {
            Value::Float64(b) => *b,
            _ => 0,
        }
    }

    /// The function a function value refers to.
    pub fn as_func(&self) -> (r: FuncId)
        requires
            value_v(*self) is Func,
        ensures
            value_v(*self) == ValueV::Func(r.0),
    {
        match self {
            Value::Func(f) => *f,
            _ => FuncId(0),
        }
    }

    /// The elements of an array value.
    pub fn as_array(&self) -> (r: &[Value])
        requires
            value_v(*self) is Array,
        ensures
            value_v(*self) == ValueV::Array(values_v_of(r@)),
    {
        match self {
            Value::Array(vs) => {
                assert(values_v(*vs) =~= values_v_of(vs@));
                vs.as_slice()
            },
            _ => {
                assert(false);
                &[]
            },
        }
    }

    /// The elements of a tuple value.
    pub fn as_tuple(&self) -> (r: &[Value])
        requires
            value_v(*self) is Tuple,
        ensures
            value_v(*self) == ValueV::Tuple(values_v_of(r@)),
    {
        match self {
            Value::Tuple(vs) => {
                assert(values_v(*vs) =~= values_v_of(vs@));
                vs.as_slice()
            },
            _ => {
                assert(false);
                &[]
            },
        }
    }
}

/// The views of a sequence of values.
pub open spec fn values_v_of(vs: Seq<Value>) -> Seq<ValueV> {
    vs.map_values(|v: Value| value_v(v))
}

fn f32_equal(a: u32, b: u32) -> (r: bool)
    ensures
        r == f32_eq(a, b),
{
    let a_nan = (a & 0x7f80_0000) == 0x7f80_0000 && (a & 0x007f_ffff) != 0;
    let b_nan = (b & 0x7f80_0000) == 0x7f80_0000 && (b & 0x007f_ffff) != 0;
    if a_nan || b_nan {
        a_nan && b_nan
    } else {
        a == b || ((a & 0x7fff_ffff) == 0 && (b & 0x7fff_ffff) == 0)
    }
}

fn f64_equal(a: u64, b: u64) -> (r: bool)
    ensures
        r == f64_eq(a, b),
{
    let a_nan = (a & 0x7ff0_0000_0000_0000) == 0x7ff0_0000_0000_0000 && (a & 0x000f_ffff_ffff_ffff)
        != 0;
    let b_nan = (b & 0x7ff0_0000_0000_0000) == 0x7ff0_0000_0000_0000 && (b & 0x000f_ffff_ffff_ffff)
        != 0;
    if a_nan || b_nan {
        a_nan && b_nan
    } else {
        a == b || ((a & 0x7fff_ffff_ffff_ffff) == 0 && (b & 0x7fff_ffff_ffff_ffff) == 0)
    }
}

impl Value {
    /// Whether two values are equal: of the same kind, with equal contents;
    /// floats compare as numbers, with all NaNs equal.
    pub fn equals(&self, other: &Value) -> (r: bool)
        ensures
            r == value_eq(value_v(*self), value_v(*other)),
        decreases self, 1nat,
    {
        let ghost a = value_v(*self);
        let ghost b = value_v(*other);
        match (self, other) {
            (Value::Unit, Value::Unit) => true,
            (Value::Null, Value::Null) => true,
            (Value::Bool(x), Value::Bool(y)) => *x == *y,
            (Value::Int(x), Value::Int(y)) => int_eq(x, y),
            (Value::Float32(x), Value::Float32(y)) => f32_equal(*x, *y),
            (Value::Float64(x), Value::Float64(y)) => f64_equal(*x, *y),
            (Value::Func(x), Value::Func(y)) => x.0 == y.0,
            (Value::Str(x), Value::Str(y)) => *x == *y,
            (Value::Array(x), Value::Array(y)) => {
                assert(a == ValueV::Array(values_v(*x)) && b == ValueV::Array(values_v(*y)));
                x.len() == y.len() && Value::all_equal(x, y)
            },
            (Value::Tuple(x), Value::Tuple(y)) => {
                assert(a == ValueV::Tuple(values_v(*x)) && b == ValueV::Tuple(values_v(*y)));
                x.len() == y.len() && Value::all_equal(x, y)
            },
            (Value::Struct(x), Value::Struct(y)) => {
                assert(a == ValueV::Struct(fields_v(*x)) && b == ValueV::Struct(fields_v(*y)));
                x.len() == y.len() && Value::fields_equal(x, y)
            },
            (Value::Variant(s, x), Value::Variant(t, y)) => {
                assert(a == ValueV::Variant(s.index_of(), Box::new(value_v(**x))));
                assert(b == ValueV::Variant(t.index_of(), Box::new(value_v(**y))));
                s.into_usize() == t.into_usize() && (&**x).equals(&**y)
            },
            _ => false,
        }
    }

    fn all_equal(xs: &Vec<Value>, ys: &Vec<Value>) -> (r: bool)
        requires
            xs.len() == ys.len(),
        ensures
            r == values_eq(values_v(*xs), values_v(*ys), 0),
        decreases xs, 0nat,
    {
        let mut i = xs.len();
        let mut r = true;
        while i > 0
            invariant
                i <= xs.len(),
                xs.len() == ys.len(),
                r == values_eq(values_v(*xs), values_v(*ys), i as int),
            decreases i,
        {
            i = i - 1;
            let e = xs[i].equals(&ys[i]);
            r = e && r;
        }
        r
    }

    fn fields_equal(xs: &Vec<(Symbol, Value)>, ys: &Vec<(Symbol, Value)>) -> (r: bool)
        requires
            xs.len() == ys.len(),
        ensures
            r == fields_eq(fields_v(*xs), fields_v(*ys), 0),
        decreases xs, 0nat,
    {
        let mut i = xs.len();
        let mut r = true;
        while i > 0
            invariant
                i <= xs.len(),
                xs.len() == ys.len(),
                r == fields_eq(fields_v(*xs), fields_v(*ys), i as int),
            decreases i,
        {
            i = i - 1;
            let same_name = xs[i].0.into_usize() == ys[i].0.into_usize();
            let e = xs[i].1.equals(&ys[i].1);
            r = same_name && e && r;
        }
        r
    }

    /// How the value is written, names taken from `sym_table` (see
    /// `value_pieces`).
    pub fn display_ctx(&self, sym_table: &SymTable) -> (r: Vec<Piece>)
        requires
            value_syms(value_v(*self), sym_table@.len()),
        ensures
            pieces_v(r@) == value_pieces(value_v(*self), sym_table@),
    {
        let mut out: Vec<Piece> = Vec::new();
        self.write_pieces(sym_table, &mut out);
        assert(pieces_v(out@) =~= value_pieces(value_v(*self), sym_table@));
        out
    }

    fn write_pieces(&self, sym_table: &SymTable, out: &mut Vec<Piece>)
        requires
            value_syms(value_v(*self), sym_table@.len()),
        ensures
            pieces_v(final(out)@) == pieces_v(old(out)@) + value_pieces(value_v(*self), sym_table@),
        decreases self, 1nat,
    {
        let ghost names = sym_table@;
        let ghost start = pieces_v(old(out)@);
        match self {
            Value::Unit => push_text(out, "()"),
            Value::Null => push_text(out, "null"),
            Value::Bool(b) => if *b {
                push_text(out, "true")
            } else {
                push_text(out, "false")
            },
            Value::Int(i) => push_string(out, int_to_string(i)),
            Value::Float32(b) => {
                out.push(Piece::Float32(*b));
                assert(pieces_v(out@) =~= start + seq![PieceV::Float32(*b)]);
            },
            Value::Float64(b) => {
                out.push(Piece::Float64(*b));
                assert(pieces_v(out@) =~= start + seq![PieceV::Float64(*b)]);
            },
            Value::Str(s) => {
                let mut t = String::new();
                push_str(&mut t, "\"");
                push_str(&mut t, escape(s.as_str()).as_str());
                push_str(&mut t, "\"");
                proof {
                    reveal_strlit("\"");
                    assert(t@ =~= seq!['"'] + escape_all(s@) + seq!['"']);
                }
                push_string(out, t);
            },
            Value::Array(xs) => {
                assert(value_v(*self) == ValueV::Array(values_v(*xs)));
                if xs.len() == 0 {
                    push_text(out, "[]");
                } else {
                    proof {
                        lemma_values_syms(values_v(*xs), names.len(), 0, 0);
                    }
                    push_text(out, "[");
                    xs[0].write_pieces(sym_table, out);
                    Value::write_rest(xs, 1, sym_table, out);
                    push_text(out, "]");
                    assert(pieces_v(out@) =~= start + value_pieces(value_v(*self), names));
                }
            },
            Value::Tuple(xs) => {
                assert(value_v(*self) == ValueV::Tuple(values_v(*xs)));
                if xs.len() == 0 {
                    push_text(out, "()");
                } else if xs.len() == 1 {
                    proof {
                        lemma_values_syms(values_v(*xs), names.len(), 0, 0);
                    }
                    push_text(out, "(");
                    xs[0].write_pieces(sym_table, out);
                    push_text(out, ",)");
                    assert(values_v(*xs)[0] == value_v(xs@[0]));
                    assert(pieces_v(out@) =~= start + value_pieces(value_v(*self), names));
                } else {
                    proof {
                        lemma_values_syms(values_v(*xs), names.len(), 0, 0);
                    }
                    push_text(out, "(");
                    xs[0].write_pieces(sym_table, out);
                    Value::write_rest(xs, 1, sym_table, out);
                    push_text(out, ")");
                    assert(pieces_v(out@) =~= start + value_pieces(value_v(*self), names));
                }
            },
            Value::Struct(fs) => {
                assert(value_v(*self) == ValueV::Struct(fields_v(*fs)));
                if fs.len() == 0 {
                    push_text(out, "{}");
                } else {
                    proof {
                        lemma_fields_syms(fields_v(*fs), names.len(), 0, 0);
                    }
                    let mut t = String::new();
                    push_str(&mut t, "{ ");
                    push_str(&mut t, sym_table.get_str(fs[0].0));
                    push_str(&mut t, ": ");
                    push_string(out, t);
                    fs[0].1.write_pieces(sym_table, out);
                    Value::write_rest_fields(fs, 1, sym_table, out);
                    push_text(out, " }");
                    assert(pieces_v(out@) =~= start + value_pieces(value_v(*self), names));
                }
            },
            Value::Variant(tag, x) => {
                assert(value_v(*self) == ValueV::Variant(tag.index_of(), Box::new(value_v(**x))));
                let mut t = String::new();
                push_str(&mut t, sym_table.get_str(*tag));
                push_str(&mut t, "(");
                push_string(out, t);
                (&**x).write_pieces(sym_table, out);
                push_text(out, ")");
                assert(pieces_v(out@) =~= start + value_pieces(value_v(*self), names));
            },
            Value::Func(f) => {
                let mut t = String::new();
                push_str(&mut t, "<func:");
                push_decimal(&mut t, f.0 as u64);
                push_str(&mut t, ">");
                push_string(out, t);
            },
        }
    }

    fn write_rest(xs: &Vec<Value>, i: usize, sym_table: &SymTable, out: &mut Vec<Piece>)
        requires
            i <= xs.len(),
            values_syms(values_v(*xs), sym_table@.len(), 0),
        ensures
            pieces_v(final(out)@) == pieces_v(old(out)@) + rest_pieces(values_v(*xs), i as int, sym_table@),
        decreases xs, xs.len() - i,
    {
        if i < xs.len() {
            let ghost start = pieces_v(old(out)@);
            proof {
                lemma_values_syms(values_v(*xs), sym_table@.len(), 0, i as int);
            }
            push_text(out, ", ");
            xs[i].write_pieces(sym_table, out);
            Value::write_rest(xs, i + 1, sym_table, out);
            assert(pieces_v(out@) =~= start + rest_pieces(values_v(*xs), i as int, sym_table@));
        } else {
            assert(pieces_v(out@) =~= pieces_v(old(out)@) + rest_pieces(values_v(*xs), i as int, sym_table@));
        }
    }

    fn write_rest_fields(fs: &Vec<(Symbol, Value)>, i: usize, sym_table: &SymTable, out: &mut Vec<Piece>)
        requires
            i <= fs.len(),
            fields_syms(fields_v(*fs), sym_table@.len(), 0),
        ensures
            pieces_v(final(out)@) == pieces_v(old(out)@) + rest_fields(fields_v(*fs), i as int, sym_table@),
        decreases fs, fs.len() - i,
    {
        if i < fs.len() {
            let ghost start = pieces_v(old(out)@);
            proof {
                lemma_fields_syms(fields_v(*fs), sym_table@.len(), 0, i as int);
            }
            let mut t = String::new();
            push_str(&mut t, ", ");
            push_str(&mut t, sym_table.get_str(fs[i].0));
            push_str(&mut t, ": ");
            push_string(out, t);
            fs[i].1.write_pieces(sym_table, out);
            Value::write_rest_fields(fs, i + 1, sym_table, out);
            assert(pieces_v(out@) =~= start + rest_fields(fields_v(*fs), i as int, sym_table@));
        } else {
            assert(pieces_v(out@) =~= pieces_v(old(out)@) + rest_fields(fields_v(*fs), i as int, sym_table@));
        }
    }
}

proof fn lemma_values_syms(xs: Seq<ValueV>, n: nat, i: int, j: int)
    requires
        0 <= i <= j < xs.len(),
        values_syms(xs, n, i),
    ensures
        value_syms(xs[j], n),
        values_syms(xs, n, j + 1),
    decreases j - i,
{
    if i < j {
        lemma_values_syms(xs, n, i + 1, j);
    }
}

proof fn lemma_fields_syms(fs: Seq<(nat, ValueV)>, n: nat, i: int, j: int)
    requires
        0 <= i <= j < fs.len(),
        fields_syms(fs, n, i),
    ensures
        fs[j].0 < n,
        value_syms(fs[j].1, n),
        fields_syms(fs, n, j + 1),
    decreases j - i,
{
    if i < j {
        lemma_fields_syms(fs, n, i + 1, j);
    }
}

impl Value {
    /// A copy of the value.
    pub fn copy(&self) -> (r: Value)
        ensures
            value_v(r) == value_v(*self),
        decreases self, 1nat,
    {
        match self {
            Value::Unit => Value::Unit,
            Value::Null => Value::Null,
            Value::Bool(b) => Value::Bool(*b),
            Value::Int(i) => Value::Int(i.copy()),
            Value::Float32(b) => Value::Float32(*b),
            Value::Float64(b) => Value::Float64(*b),
            Value::Func(f) => Value::Func(*f),
            Value::Str(s) => Value::Str(s.clone()),
            Value::Array(xs) => {
                let ys = Value::copy_all(xs);
                assert(values_v(ys) =~= values_v(*xs));
                Value::Array(ys)
            },
            Value::Tuple(xs) => {
                let ys = Value::copy_all(xs);
                assert(values_v(ys) =~= values_v(*xs));
                Value::Tuple(ys)
            },
            Value::Struct(fs) => {
                let gs = Value::copy_fields(fs);
                assert(fields_v(gs) =~= fields_v(*fs));
                Value::Struct(gs)
            },
            Value::Variant(tag, x) => Value::Variant(*tag, Box::new((&**x).copy())),
        }
    }

    /// Copies of the values, in order.
    pub fn copy_all(xs: &Vec<Value>) -> (r: Vec<Value>)
        ensures
            values_v_of(r@) == values_v_of(xs@),
            values_v(r) == values_v(*xs),
        decreases xs, 0nat,
    {
        let mut out: Vec<Value> = Vec::new();
        let mut i: usize = 0;
        while i < xs.len()
            invariant
                i <= xs.len(),
                values_v_of(out@) == values_v_of(xs@).take(i as int),
            decreases xs.len() - i,
        {
            let v = xs[i].copy();
            let ghost before = values_v_of(out@);
            out.push(v);
            assert(values_v_of(out@) =~= before.push(value_v(v)));
            i = i + 1;
            assert(values_v_of(out@) =~= values_v_of(xs@).take(i as int));
        }
        assert(values_v_of(xs@).take(i as int) =~= values_v_of(xs@));
        assert(values_v(out) =~= values_v(*xs)) by {
            assert forall|k: int| 0 <= k < out@.len() implies values_v(out)[k] == values_v(*xs)[k] by {
                assert(values_v_of(out@)[k] == values_v_of(xs@)[k]);
            }
        }
        out
    }

    fn copy_fields(fs: &Vec<(Symbol, Value)>) -> (r: Vec<(Symbol, Value)>)
        ensures
            fields_v(r) == fields_v(*fs),
        decreases fs, 0nat,
    {
        let mut out: Vec<(Symbol, Value)> = Vec::new();
        let mut i: usize = 0;
        while i < fs.len()
            invariant
                i <= fs.len(),
                out@.len() == i,
                forall|k: int|
                    0 <= k < i ==> (#[trigger] out@[k]).0 == fs@[k].0 && value_v(out@[k].1)
                        == value_v(fs@[k].1),
            decreases fs.len() - i,
        {
            let v = fs[i].1.copy();
            out.push((fs[i].0, v));
            i = i + 1;
        }
        assert(fields_v(out) =~= fields_v(*fs));
        out
    }
}

impl Value {
    /// Whether every symbol of the value has a name in a table of `n`
    /// names.
    pub fn syms_within(&self, n: usize) -> (r: bool)
        ensures
            r == value_syms(value_v(*self), n as nat),
        decreases self, 1nat,
    {
        match self {
            Value::Array(xs) => {
                assert(value_v(*self) == ValueV::Array(values_v(*xs)));
                Value::all_syms_within(xs, n)
            },
            Value::Tuple(xs) => {
                assert(value_v(*self) == ValueV::Tuple(values_v(*xs)));
                Value::all_syms_within(xs, n)
            },
            Value::Struct(fs) => {
                assert(value_v(*self) == ValueV::Struct(fields_v(*fs)));
                Value::fields_syms_within(fs, n)
            },
            Value::Variant(tag, x) => {
                assert(value_v(*self) == ValueV::Variant(tag.index_of(), Box::new(value_v(**x))));
                tag.into_usize() < n && (&**x).syms_within(n)
            },
            _ => true,
        }
    }

    fn fields_syms_within(fs: &Vec<(Symbol, Value)>, n: usize) -> (r: bool)
        ensures
            r == fields_syms(fields_v(*fs), n as nat, 0),
        decreases fs, 0nat,
    {
        let mut i = fs.len();
        let mut r = true;
        while i > 0
            invariant
                i <= fs.len(),
                r == fields_syms(fields_v(*fs), n as nat, i as int),
            decreases i,
        {
            i = i - 1;
            let ok = fs[i].0.into_usize() < n && fs[i].1.syms_within(n);
            r = ok && r;
        }
        r
    }

    fn all_syms_within(xs: &Vec<Value>, n: usize) -> (r: bool)
        ensures
            r == values_syms(values_v(*xs), n as nat, 0),
        decreases xs, 0nat,
    {
        let mut i = xs.len();
        let mut r = true;
        while i > 0
            invariant
                i <= xs.len(),
                r == values_syms(values_v(*xs), n as nat, i as int),
            decreases i,
        {
            i = i - 1;
            let ok = xs[i].syms_within(n);
            r = ok && r;
        }
        r
    }
}

/// Every value is equal to itself (a NaN too, as floats compare here).
pub proof fn lemma_value_eq_refl(v: ValueV)
    ensures
        value_eq(v, v),
    decreases v, 1nat,
{
    match v {
        ValueV::Array(xs) => lemma_values_eq_refl(xs, 0),
        ValueV::Tuple(xs) => lemma_values_eq_refl(xs, 0),
        ValueV::Struct(fs) => lemma_fields_eq_refl(fs, 0),
        ValueV::Variant(_, x) => lemma_value_eq_refl(*x),
        _ => {},
    }
}

proof fn lemma_values_eq_refl(xs: Seq<ValueV>, i: int)
    ensures
        values_eq(xs, xs, i),
    decreases xs, xs.len() - i,
{
    if 0 <= i < xs.len() {
        lemma_value_eq_refl(xs[i]);
        lemma_values_eq_refl(xs, i + 1);
    }
}

proof fn lemma_fields_eq_refl(fs: Seq<(nat, ValueV)>, i: int)
    ensures
        fields_eq(fs, fs, i),
    decreases fs, fs.len() - i,
{
    if 0 <= i < fs.len() {
        lemma_value_eq_refl(fs[i].1);
        lemma_fields_eq_refl(fs, i + 1);
    }
}

} // verus!
