//! The code of a function: its instructions, labels and constants, how it
//! is built with labels resolved, and how it is listed.
use vstd::prelude::*;

use crate::interner::SymTable;
use crate::text::{decimal, push_decimal, push_str};
use crate::vm::instr::{
    decode_spec, enc_am, enc_m, encode_spec, get_opcode_spec, instr_text, is_known_opcode, or_shl,
    Addr, EncodedInstr, Imm, Instr, Reg,
};
use crate::vm::module::FuncId;
use crate::vm::value::{
    piece_v, pieces_v, text, value_eq, value_pieces, value_syms, value_v, values_v_of, Piece, PieceV,
    Value, ValueV,
};

verus! {

/// The code of a function: its id, its instructions, its labels by the
/// position they stand at, its constants and the number of registers it
/// uses.
#[derive(Debug)]
pub struct Chunk {
    pub func_id: FuncId,
    pub code: Vec<EncodedInstr>,
    pub labels: Vec<(usize, String)>,
    pub constants: Vec<Value>,
    pub stack_size: usize,
}

/// Labels by position, with their names as text.
pub open spec fn labels_v(ls: Seq<(usize, String)>) -> Seq<(usize, Seq<char>)> {
    ls.map_values(|l: (usize, String)| (l.0, l.1@))
}

/// The first lines of a listing.
pub open spec fn header_text(func_id: u32, stack_size: usize) -> Seq<char> {
    "[attrs]\nfunc_id = "@ + decimal(func_id as nat) + "\nstack_size = "@ + decimal(stack_size as nat)
        + "\n\n[code]\n"@
}

/// The lines `name:` of the labels from `j` on that stand at position `k`
/// or before, and the first label after them.
pub open spec fn label_lines(labels: Seq<(usize, Seq<char>)>, j: int, k: int) -> (Seq<char>, int)
    decreases labels.len() - j,
{
    if 0 <= j < labels.len() && labels[j].0 <= k {
        let (rest, next) = label_lines(labels, j + 1, k);
        (labels[j].1 + ":\n"@ + rest, next)
    } else {
        (Seq::empty(), j)
    }
}

/// The first label from `i` on that stands at `addr`.
pub open spec fn first_label(labels: Seq<(usize, Seq<char>)>, addr: int, i: int) -> Option<int>
    decreases labels.len() - i,
{
    if 0 <= i < labels.len() {
        if labels[i].0 == addr {
            Some(i)
        } else {
            first_label(labels, addr, i + 1)
        }
    } else {
        None
    }
}

/// The line of an instruction: indented, and for a jump, the label it jumps
/// to (the first at its address) or `<unresolved label>`.
pub open spec fn code_line(i: Instr, labels: Seq<(usize, Seq<char>)>) -> Seq<char> {
    let target = match i {
        Instr::Jump { addr } => Some(addr.0),
        Instr::JumpIfTrue { addr, .. } => Some(addr.0),
        Instr::JumpIfFalse { addr, .. } => Some(addr.0),
        _ => None,
    };
    match target {
        Some(a) => "    "@ + instr_text(i) + match first_label(labels, a as int, 0) {
            Some(x) => " <"@ + labels[x].1 + ">\n"@,
            None => " <unresolved label>\n"@,
        },
        None => "    "@ + instr_text(i) + "\n"@,
    }
}

/// The listing of the instructions from `k` on, the labels from `j` on not
/// yet listed.
pub open spec fn code_text(code: Seq<EncodedInstr>, labels: Seq<(usize, Seq<char>)>, k: int, j: int) -> Seq<
    char,
>
    decreases code.len() - k,
{
    if 0 <= k < code.len() {
        let (ls, next) = label_lines(labels, j, k);
        ls + code_line(decode_spec(code[k].0), labels) + code_text(code, labels, k + 1, next)
    } else {
        Seq::empty()
    }
}

/// The name of a value's kind.
pub open spec fn kind_name(v: ValueV) -> Seq<char> {
    match v {
        ValueV::Unit => "Unit"@,
        ValueV::Null => "Null"@,
        ValueV::Bool(_) => "Bool"@,
        ValueV::Int(_) => "Int"@,
        ValueV::Float32(_) => "Float32"@,
        ValueV::Float64(_) => "Float64"@,
        ValueV::Func(_) => "Func"@,
        ValueV::Str(_) => "Str"@,
        ValueV::Array(_) => "Array"@,
        ValueV::Tuple(_) => "Tuple"@,
        ValueV::Struct(_) => "Struct"@,
        ValueV::Variant(_, _) => "Variant"@,
    }
}

/// How a constant is listed: the kind of value, and what it holds in
/// brackets.
pub open spec fn const_pieces(v: ValueV, names: Seq<Seq<char>>) -> Seq<PieceV> {
    match v {
        ValueV::Unit => text("Unit"@),
        ValueV::Null => text("Null"@),
        _ => text(kind_name(v) + "("@) + value_pieces(v, names) + text(")"@),
    }
}

/// The lines of the constants from `i` on.
pub open spec fn consts_pieces(cs: Seq<ValueV>, i: int, names: Seq<Seq<char>>) -> Seq<PieceV>
    decreases cs.len() - i,
{
    if 0 <= i < cs.len() {
        text("    "@) + const_pieces(cs[i], names) + text("\n"@) + consts_pieces(cs, i + 1, names)
    } else {
        Seq::empty()
    }
}

/// The listing of a chunk: its attributes, its instructions with the labels
/// before them, and its constants where it has any.
pub open spec fn listing(
    func_id: u32,
    stack_size: usize,
    code: Seq<EncodedInstr>,
    labels: Seq<(usize, Seq<char>)>,
    consts: Seq<ValueV>,
    names: Seq<Seq<char>>,
) -> Seq<PieceV> {
    text(header_text(func_id, stack_size) + code_text(code, labels, 0, 0)) + if consts.len() == 0 {
        Seq::empty()
    } else {
        text("\n[constants]\n"@) + consts_pieces(consts, 0, names)
    }
}

/// Every instruction of `code` has a known opcode.
pub open spec fn code_known(code: Seq<EncodedInstr>) -> bool {
    forall|k: int| 0 <= k < code.len() ==> is_known_opcode(get_opcode_spec(#[trigger] code[k].0))
}

impl Chunk {
    pub fn stack_size(&self) -> (r: usize)
        ensures
            r == self.stack_size,
    {
        self.stack_size
    }

    pub fn code(&self) -> (r: &[EncodedInstr])
        ensures
            r@ == self.code@,
    {
        self.code.as_slice()
    }

    pub fn constants(&self) -> (r: &[Value])
        ensures
            r@ == self.constants@,
    {
        self.constants.as_slice()
    }

    /// The constant at a position.
    pub fn get_const(&self, imm: Imm) -> (r: &Value)
        requires
            imm.0 < self.constants@.len(),
        ensures
            *r == self.constants@[imm.0 as int],
    {
        &self.constants[imm.0 as usize]
    }

    /// The listing of the chunk (see `listing`), names taken from
    /// `sym_table`.
    pub fn disassemble(&self, sym_table: &SymTable) -> (r: Vec<Piece>)
        requires
            code_known(self.code@),
            forall|i: int|
                0 <= i < self.constants@.len() ==> value_syms(
                    value_v(#[trigger] self.constants@[i]),
                    sym_table@.len(),
                ),
        ensures
            pieces_v(r@) == listing(
                self.func_id.0,
                self.stack_size,
                self.code@,
                labels_v(self.labels@),
                values_v_of(self.constants@),
                sym_table@,
            ),
    {
        let ghost labels = labels_v(self.labels@);
        let ghost code = self.code@;
        let mut out = String::new();
        push_str(&mut out, "[attrs]\nfunc_id = ");
        push_decimal(&mut out, self.func_id.0 as u64);
        push_str(&mut out, "\nstack_size = ");
        push_decimal(&mut out, self.stack_size as u64);
        push_str(&mut out, "\n\n[code]\n");
        let ghost target = header_text(self.func_id.0, self.stack_size) + code_text(code, labels, 0, 0);
        assert(out@ =~= header_text(self.func_id.0, self.stack_size));
        let mut j: usize = 0;
        let mut k: usize = 0;
        while k < self.code.len()
            invariant
                k <= self.code.len(),
                j <= self.labels.len(),
                code == self.code@,
                labels == labels_v(self.labels@),
                code_known(code),
                out@ + code_text(code, labels, k as int, j as int) == target,
            decreases self.code.len() - k,
        {
            let ghost (ls, next) = label_lines(labels, j as int, k as int);
            let ghost rest = code_line(decode_spec(code[k as int].0), labels) + code_text(
                code,
                labels,
                k + 1,
                next,
            );
            assert(code_text(code, labels, k as int, j as int) == ls + rest);
            while j < self.labels.len() && self.labels[j].0 <= k
                invariant
                    j <= self.labels.len(),
                    k < self.code.len(),
                    labels == labels_v(self.labels@),
                    label_lines(labels, j as int, k as int).1 == next,
                    out@ + label_lines(labels, j as int, k as int).0 + rest == target,
                decreases self.labels.len() - j,
            {
                let ghost before = out@;
                push_str(&mut out, self.labels[j].1.as_str());
                push_str(&mut out, ":\n");
                j = j + 1;
                assert(before + label_lines(labels, j - 1, k as int).0 =~= out@ + label_lines(
                    labels,
                    j as int,
                    k as int,
                ).0);
            }
            assert(label_lines(labels, j as int, k as int).0 =~= Seq::<char>::empty());
            let instr = Instr::decode(self.code[k]);
            let line = self.code_line(instr);
            let ghost before = out@;
            push_str(&mut out, line.as_str());
            assert(before + rest =~= out@ + code_text(code, labels, k + 1, j as int));
            k = k + 1;
        }
        assert(out@ =~= target);
        let mut r: Vec<Piece> = Vec::new();
        r.push(Piece::Text(out));
        let ghost consts = values_v_of(self.constants@);
        if self.constants.len() > 0 {
            let mut head = String::new();
            push_str(&mut head, "\n[constants]\n");
            r.push(Piece::Text(head));
            let mut i: usize = 0;
            assert(pieces_v(r@) + consts_pieces(consts, 0, sym_table@) =~= listing(
                self.func_id.0,
                self.stack_size,
                code,
                labels,
                consts,
                sym_table@,
            ));
            while i < self.constants.len()
                invariant
                    i <= self.constants.len(),
                    consts == values_v_of(self.constants@),
                    forall|m: int|
                        0 <= m < self.constants@.len() ==> value_syms(
                            value_v(#[trigger] self.constants@[m]),
                            sym_table@.len(),
                        ),
                    pieces_v(r@) + consts_pieces(consts, i as int, sym_table@) == listing(
                        self.func_id.0,
                        self.stack_size,
                        code,
                        labels,
                        consts,
                        sym_table@,
                    ),
                decreases self.constants.len() - i,
            {
                let ghost before = pieces_v(r@);
                assert(consts[i as int] == value_v(self.constants@[i as int]));
                assert(consts_pieces(consts, i as int, sym_table@) == text("    "@) + const_pieces(
                    consts[i as int],
                    sym_table@,
                ) + text("\n"@) + consts_pieces(consts, i + 1, sym_table@));
                let mut indent = String::new();
                push_str(&mut indent, "    ");
                assert(indent@ =~= "    "@);
                r.push(Piece::Text(indent));
                assert(pieces_v(r@) =~= before + text("    "@));
                let ghost mid = pieces_v(r@);
                write_const(&self.constants[i], sym_table, &mut r);
                let ghost after = pieces_v(r@);
                let mut nl = String::new();
                push_str(&mut nl, "\n");
                assert(nl@ =~= "\n"@);
                r.push(Piece::Text(nl));
                assert(pieces_v(r@) =~= after + text("\n"@));
                assert(before + consts_pieces(consts, i as int, sym_table@) =~= pieces_v(r@)
                    + consts_pieces(consts, i + 1, sym_table@));
                i = i + 1;
            }
        } else {
            assert(pieces_v(r@) =~= listing(
                self.func_id.0,
                self.stack_size,
                code,
                labels,
                consts,
                sym_table@,
            ));
        }
        r
    }

    /// The line of an instruction (see `code_line`).
    fn code_line(&self, instr: Instr) -> (r: String)
        ensures
            r@ == code_line(instr, labels_v(self.labels@)),
    {
        let ghost labels = labels_v(self.labels@);
        let target = match instr {
            Instr::Jump { addr } => Some(addr.0),
            Instr::JumpIfTrue { addr, .. } => Some(addr.0),
            Instr::JumpIfFalse { addr, .. } => Some(addr.0),
            _ => None,
        };
        let mut r = String::new();
        push_str(&mut r, "    ");
        push_str(&mut r, instr.to_string().as_str());
        match target {
            Some(a) => {
                let mut i: usize = 0;
                let mut found: Option<usize> = None;
                while i < self.labels.len()
                    invariant
                        i <= self.labels.len(),
                        labels == labels_v(self.labels@),
                        first_label(labels, a as int, 0) == (match found {
                            Some(x) => Some(x as int),
                            None => first_label(labels, a as int, i as int),
                        }),
                        found is Some ==> i == self.labels.len(),
                        found matches Some(x) ==> x < self.labels.len(),
                    decreases self.labels.len() - i,
                {
                    if self.labels[i].0 == a as usize {
                        found = Some(i);
                        i = self.labels.len();
                    } else {
                        i = i + 1;
                    }
                }
                match found {
                    Some(x) => {
                        assert(labels[x as int].1 == self.labels@[x as int].1@);
                        push_str(&mut r, " <");
                        push_str(&mut r, self.labels[x].1.as_str());
                        push_str(&mut r, ">\n");
                    },
                    None => push_str(&mut r, " <unresolved label>\n"),
                }
            },
            None => push_str(&mut r, "\n"),
        }
        r
    }
}

/// Appends how a constant is listed (see `const_pieces`).
fn write_const(v: &Value, sym_table: &SymTable, out: &mut Vec<Piece>)
    requires
        value_syms(value_v(*v), sym_table@.len()),
    ensures
        pieces_v(final(out)@) == pieces_v(old(out)@) + const_pieces(value_v(*v), sym_table@),
{
    let ghost start = pieces_v(old(out)@);
    let kind = match v {
        Value::Unit => "Unit",
        Value::Null => "Null",
        Value::Bool(_) => "Bool",
        Value::Int(_) => "Int",
        Value::Float32(_) => "Float32",
        Value::Float64(_) => "Float64",
        Value::Func(_) => "Func",
        Value::Str(_) => "Str",
        Value::Array(_) => "Array",
        Value::Tuple(_) => "Tuple",
        Value::Struct(_) => "Struct",
        Value::Variant(_, _) => "Variant",
    };
    let mut t = String::new();
    push_str(&mut t, kind);
    match v {
        Value::Unit | Value::Null => {
            assert(t@ =~= kind_name(value_v(*v)));
            out.push(Piece::Text(t));
            assert(pieces_v(out@) =~= start + const_pieces(value_v(*v), sym_table@));
        },
        _ => {
            push_str(&mut t, "(");
            assert(t@ =~= kind_name(value_v(*v)) + "("@);
            out.push(Piece::Text(t));
            assert(pieces_v(out@) =~= start + text(kind_name(value_v(*v)) + "("@));
            let pieces = v.display_ctx(sym_table);
            let mut i: usize = 0;
            let ghost mid = pieces_v(out@);
            while i < pieces.len()
                invariant
                    i <= pieces.len(),
                    pieces_v(out@) == mid + pieces_v(pieces@).take(i as int),
                decreases pieces.len() - i,
            {
                let p = match &pieces[i] {
                    Piece::Text(s) => Piece::Text(s.clone()),
                    Piece::Float32(b) => Piece::Float32(*b),
                    Piece::Float64(b) => Piece::Float64(*b),
                };
                assert(piece_v(p) == pieces_v(pieces@)[i as int]);
                let ghost before = pieces_v(out@);
                out.push(p);
                assert(pieces_v(out@) =~= before.push(piece_v(p)));
                i = i + 1;
                assert(pieces_v(pieces@).take(i as int) =~= pieces_v(pieces@).take(i - 1).push(
                    pieces_v(pieces@)[i - 1],
                ));
                assert(pieces_v(out@) =~= mid + pieces_v(pieces@).take(i as int));
            }
            let mut close = String::new();
            push_str(&mut close, ")");
            assert(close@ =~= ")"@);
            let ghost before = pieces_v(out@);
            out.push(Piece::Text(close));
            assert(pieces_v(out@) =~= before + text(")"@));
            assert(pieces_v(pieces@).take(pieces.len() as int) =~= pieces_v(pieces@));
            assert(pieces_v(out@) =~= start + const_pieces(value_v(*v), sym_table@));
        },
    }
}

// ---------------------------------------------------------------------------
// Building a chunk
// ---------------------------------------------------------------------------

/// A jump, redirected to `addr`.
pub open spec fn patch_spec(i: Instr, addr: Addr) -> Instr {
    match i {
        Instr::Jump { .. } => Instr::Jump { addr },
        Instr::JumpIfTrue { r0, .. } => Instr::JumpIfTrue { r0, addr },
        Instr::JumpIfFalse { r0, .. } => Instr::JumpIfFalse { r0, addr },
        _ => i,
    }
}

/// The instruction at `p` is a jump.
pub open spec fn jump_at(code: Seq<EncodedInstr>, p: int) -> bool {
    &&& 0 <= p < code.len()
    &&& is_known_opcode(get_opcode_spec(code[p].0))
    &&& decode_spec(code[p].0).is_jump()
}

/// Where the label `name` stands, if it is defined.
pub open spec fn label_addr(addrs: Seq<(Seq<char>, Addr)>, name: Seq<char>, i: int) -> Option<Addr>
    decreases addrs.len() - i,
{
    if 0 <= i < addrs.len() {
        if addrs[i].0 == name {
            Some(addrs[i].1)
        } else {
            label_addr(addrs, name, i + 1)
        }
    } else {
        None
    }
}

/// The code with the first `n` uses of labels redirected to where the
/// labels stand.
pub open spec fn patched(
    code: Seq<EncodedInstr>,
    uses: Seq<(Seq<char>, Addr)>,
    addrs: Seq<(Seq<char>, Addr)>,
    n: int,
) -> Seq<EncodedInstr>
    decreases n,
{
    if 0 < n <= uses.len() {
        let c = patched(code, uses, addrs, n - 1);
        let p = uses[n - 1].1.0 as int;
        c.update(
            p,
            EncodedInstr(
                encode_spec(
                    patch_spec(decode_spec(c[p].0), label_addr(addrs, uses[n - 1].0, 0).unwrap()),
                ),
            ),
        )
    } else {
        code
    }
}

/// The labels of a chunk: where each stands and its name.
pub open spec fn label_entries(addrs: Seq<(Seq<char>, Addr)>) -> Seq<(usize, Seq<char>)> {
    addrs.map_values(|e: (Seq<char>, Addr)| (e.1.0 as usize, e.0))
}

/// The labels are in the order of where they stand.
pub open spec fn labels_sorted(ls: Seq<(usize, Seq<char>)>) -> bool {
    forall|i: int, j: int| 0 <= i < j < ls.len() ==> ls[i].0 <= ls[j].0
}

/// The first constant from `i` on equal to `v`.
pub open spec fn first_equal(cs: Seq<ValueV>, v: ValueV, i: int) -> Option<int>
    decreases cs.len() - i,
{
    if 0 <= i < cs.len() {
        if value_eq(cs[i], v) {
            Some(i)
        } else {
            first_equal(cs, v, i + 1)
        }
    } else {
        None
    }
}

/// The encoding of a jump is known and decodes to a jump.
proof fn lemma_jump_encoding(i: Instr)
    requires
        i.is_jump(),
    ensures
        is_known_opcode(get_opcode_spec(encode_spec(i))),
        decode_spec(encode_spec(i)).is_jump(),
{
    match i {
        Instr::Jump { addr } => {
            let m = addr.0 as u32;
            assert((30u32 | (m << 16u32)) & 0x3f == 30) by (bit_vector);
        },
        Instr::JumpIfTrue { r0, addr } => {
            let a = r0.0 as u32;
            let m = addr.0 as u32;
            assert(((31u32 | (a << 8u32)) | (m << 16u32)) & 0x3f == 31) by (bit_vector);
        },
        Instr::JumpIfFalse { r0, addr } => {
            let a = r0.0 as u32;
            let m = addr.0 as u32;
            assert(((32u32 | (a << 8u32)) | (m << 16u32)) & 0x3f == 32) by (bit_vector);
        },
        _ => {},
    }
}

/// Builds the code of a function: instructions, jumps to labels that are
/// resolved when it is built, and constants.
#[derive(Debug)]
pub struct ChunkBuilder {
    code: Vec<EncodedInstr>,
    label_uses: Vec<(String, Addr)>,
    label_addrs: Vec<(String, Addr)>,
    constants: Vec<Value>,
}

/// Label names and positions, with the names as text.
pub open spec fn marks_v(ls: Seq<(String, Addr)>) -> Seq<(Seq<char>, Addr)> {
    ls.map_values(|l: (String, Addr)| (l.0@, l.1))
}

impl ChunkBuilder {
    /// The instructions so far.
    pub closed spec fn code_v(&self) -> Seq<EncodedInstr> {
        self.code@
    }

    /// The jumps to labels so far: the label and where the jump stands.
    pub closed spec fn uses_v(&self) -> Seq<(Seq<char>, Addr)> {
        marks_v(self.label_uses@)
    }

    /// The labels so far: the name and where it stands.
    pub closed spec fn addrs_v(&self) -> Seq<(Seq<char>, Addr)> {
        marks_v(self.label_addrs@)
    }

    /// The constants so far.
    pub closed spec fn consts_v(&self) -> Seq<ValueV> {
        values_v_of(self.constants@)
    }

    /// No label is defined twice, every jump to a label is a jump, and each
    /// constant has a 16-bit position.
    pub closed spec fn wf(&self) -> bool {
        &&& self.constants@.len() <= u16::MAX + 1
        &&& forall|i: int, j: int|
            0 <= i < j < self.label_addrs@.len() ==> self.label_addrs@[i].0@
                != self.label_addrs@[j].0@
        &&& forall|i: int|
            0 <= i < self.label_uses@.len() ==> jump_at(
                self.code@,
                (#[trigger] self.label_uses@[i]).1.0 as int,
            )
    }

    pub fn new() -> (r: Self)
        ensures
            r.wf(),
            r.code_v() == Seq::<EncodedInstr>::empty(),
            r.uses_v() == Seq::<(Seq<char>, Addr)>::empty(),
            r.addrs_v() == Seq::<(Seq<char>, Addr)>::empty(),
            r.consts_v() == Seq::<ValueV>::empty(),
    {
        let r = ChunkBuilder {
            code: Vec::new(),
            label_uses: Vec::new(),
            label_addrs: Vec::new(),
            constants: Vec::new(),
        };
        assert(r.uses_v() =~= Seq::<(Seq<char>, Addr)>::empty());
        assert(r.addrs_v() =~= Seq::<(Seq<char>, Addr)>::empty());
        assert(r.consts_v() =~= Seq::<ValueV>::empty());
        r
    }

    /// Appends an instruction.
    pub fn ins(&mut self, instr: Instr)
        requires
            old(self).wf(),
        ensures
            final(self).wf(),
            final(self).code_v() == old(self).code_v().push(EncodedInstr(encode_spec(instr))),
            final(self).uses_v() == old(self).uses_v(),
            final(self).addrs_v() == old(self).addrs_v(),
            final(self).consts_v() == old(self).consts_v(),
    {
        self.code.push(instr.encode());
        assert forall|i: int| 0 <= i < self.label_uses@.len() implies jump_at(
            self.code@,
            (#[trigger] self.label_uses@[i]).1.0 as int,
        ) by {
            assert(jump_at(old(self).code@, self.label_uses@[i].1.0 as int));
        }
    }

    /// Appends a jump to `label`, resolved when the chunk is built.
    fn push_jump(&mut self, label: &str, instr: Instr)
        requires
            old(self).wf(),
            old(self).code_v().len() <= u16::MAX,
            instr.is_jump(),
        ensures
            final(self).wf(),
            final(self).code_v() == old(self).code_v().push(EncodedInstr(encode_spec(instr))),
            final(self).uses_v() == old(self).uses_v().push(
                (label@, Addr(old(self).code_v().len() as u16)),
            ),
            final(self).addrs_v() == old(self).addrs_v(),
            final(self).consts_v() == old(self).consts_v(),
    {
        let pos = self.curr_pos();
        self.label_uses.push((label.to_owned(), pos));
        self.code.push(instr.encode());
        proof {
            lemma_jump_encoding(instr);
            assert(self.uses_v() =~= old(self).uses_v().push((label@, pos)));
        }
        assert forall|i: int| 0 <= i < self.label_uses@.len() implies jump_at(
            self.code@,
            (#[trigger] self.label_uses@[i]).1.0 as int,
        ) by {
            if i < old(self).label_uses@.len() {
                assert(self.label_uses@[i] == old(self).label_uses@[i]);
                assert(jump_at(old(self).code@, self.label_uses@[i].1.0 as int));
            }
        }
    }

    /// Appends a jump to `label`.
    pub fn ins_jump(&mut self, label: &str)
        requires
            old(self).wf(),
            old(self).code_v().len() <= u16::MAX,
        ensures
            final(self).wf(),
            final(self).code_v() == old(self).code_v().push(
                EncodedInstr(encode_spec(Instr::Jump { addr: Addr(0) })),
            ),
            final(self).uses_v() == old(self).uses_v().push(
                (label@, Addr(old(self).code_v().len() as u16)),
            ),
            final(self).addrs_v() == old(self).addrs_v(),
            final(self).consts_v() == old(self).consts_v(),
    {
        self.push_jump(label, Instr::Jump { addr: Addr(0) });
    }

    /// Appends a jump to `label` taken where `r0` holds true.
    pub fn ins_jump_if_true(&mut self, r0: Reg, label: &str)
        requires
            old(self).wf(),
            old(self).code_v().len() <= u16::MAX,
        ensures
            final(self).wf(),
            final(self).code_v() == old(self).code_v().push(
                EncodedInstr(encode_spec(Instr::JumpIfTrue { r0, addr: Addr(0) })),
            ),
            final(self).uses_v() == old(self).uses_v().push(
                (label@, Addr(old(self).code_v().len() as u16)),
            ),
            final(self).addrs_v() == old(self).addrs_v(),
            final(self).consts_v() == old(self).consts_v(),
    {
        self.push_jump(label, Instr::JumpIfTrue { r0, addr: Addr(0) });
    }

    /// Appends a jump to `label` taken where `r0` holds false.
    pub fn ins_jump_if_false(&mut self, r0: Reg, label: &str)
        requires
            old(self).wf(),
            old(self).code_v().len() <= u16::MAX,
        ensures
            final(self).wf(),
            final(self).code_v() == old(self).code_v().push(
                EncodedInstr(encode_spec(Instr::JumpIfFalse { r0, addr: Addr(0) })),
            ),
            final(self).uses_v() == old(self).uses_v().push(
                (label@, Addr(old(self).code_v().len() as u16)),
            ),
            final(self).addrs_v() == old(self).addrs_v(),
            final(self).consts_v() == old(self).consts_v(),
    {
        self.push_jump(label, Instr::JumpIfFalse { r0, addr: Addr(0) });
    }

    /// Puts the label `label` at the next instruction; a label is defined
    /// once.
    pub fn ins_label(&mut self, label: &str)
        requires
            old(self).wf(),
            old(self).code_v().len() <= u16::MAX,
            label_addr(old(self).addrs_v(), label@, 0) is None,
        ensures
            final(self).wf(),
            final(self).code_v() == old(self).code_v(),
            final(self).uses_v() == old(self).uses_v(),
            final(self).addrs_v() == old(self).addrs_v().push(
                (label@, Addr(old(self).code_v().len() as u16)),
            ),
            final(self).consts_v() == old(self).consts_v(),
    {
        proof {
            lemma_label_addr_none(old(self).addrs_v(), label@, 0);
        }
        let pos = self.curr_pos();
        self.label_addrs.push((label.to_owned(), pos));
        proof {
            assert(self.addrs_v() =~= old(self).addrs_v().push((label@, pos)));
        }
        assert forall|i: int, j: int|
            0 <= i < j < self.label_addrs@.len() implies self.label_addrs@[i].0@
            != self.label_addrs@[j].0@ by {
            if j == old(self).label_addrs@.len() {
                assert(old(self).addrs_v()[i].0 == old(self).label_addrs@[i].0@);
            }
        }
    }

    /// The position of the constant equal to `value`, added where there is
    /// none.
    pub fn constant(&mut self, value: Value) -> (r: Imm)
        requires
            old(self).wf(),
            first_equal(old(self).consts_v(), value_v(value), 0) is Some || old(
                self,
            ).consts_v().len() <= u16::MAX,
        ensures
            final(self).wf(),
            final(self).code_v() == old(self).code_v(),
            final(self).uses_v() == old(self).uses_v(),
            final(self).addrs_v() == old(self).addrs_v(),
            match first_equal(old(self).consts_v(), value_v(value), 0) {
                Some(i) => r.0 == i && final(self).consts_v() == old(self).consts_v(),
                None => r.0 == old(self).consts_v().len() && final(self).consts_v() == old(
                    self,
                ).consts_v().push(value_v(value)),
            },
    {
        let ghost cs = self.consts_v();
        let mut i: usize = 0;
        while i < self.constants.len()
            invariant
                i <= self.constants.len(),
                cs == values_v_of(self.constants@),
                self == old(self),
                self.wf(),
                first_equal(cs, value_v(value), 0) == first_equal(cs, value_v(value), i as int),
            decreases self.constants.len() - i,
        {
            if self.constants[i].equals(&value) {
                return Imm(i as u16);
            }
            i = i + 1;
        }
        let imm = Imm(self.constants.len() as u16);
        self.constants.push(value);
        assert(self.consts_v() =~= cs.push(value_v(value)));
        imm
    }

    /// The chunk: every jump to a label redirected to where the label
    /// stands, and the labels in the order of where they stand. Every label
    /// jumped to is defined.
    pub fn build(self, func_id: FuncId, stack_size: usize) -> (r: Chunk)
        requires
            self.wf(),
            forall|i: int|
                0 <= i < self.uses_v().len() ==> label_addr(
                    self.addrs_v(),
                    (#[trigger] self.uses_v()[i]).0,
                    0,
                ) is Some,
        ensures
            r.func_id == func_id,
            r.stack_size == stack_size,
            r.code@ == patched(self.code_v(), self.uses_v(), self.addrs_v(), self.uses_v().len() as int),
            values_v_of(r.constants@) == self.consts_v(),
            labels_sorted(labels_v(r.labels@)),
            labels_v(r.labels@).len() == self.addrs_v().len(),
            labels_v(r.labels@).to_set() == label_entries(self.addrs_v()).to_set(),
    {
        let mut this = self;
        this.backpatch();
        let labels = sorted_labels(&this.label_addrs);
        Chunk { func_id, code: this.code, labels, constants: this.constants, stack_size }
    }

    /// Redirects every jump to a label to where the label stands.
    fn backpatch(&mut self)
        requires
            old(self).wf(),
            forall|i: int|
                0 <= i < old(self).uses_v().len() ==> label_addr(
                    old(self).addrs_v(),
                    (#[trigger] old(self).uses_v()[i]).0,
                    0,
                ) is Some,
        ensures
            final(self).code_v() == patched(
                old(self).code_v(),
                old(self).uses_v(),
                old(self).addrs_v(),
                old(self).uses_v().len() as int,
            ),
            final(self).label_addrs@ == old(self).label_addrs@,
            final(self).constants@ == old(self).constants@,
    {
        let ghost code0 = self.code@;
        let ghost uses = self.uses_v();
        let ghost addrs = self.addrs_v();
        let mut i: usize = 0;
        while i < self.label_uses.len()
            invariant
                i <= self.label_uses.len(),
                uses == marks_v(self.label_uses@),
                addrs == marks_v(self.label_addrs@),
                self.label_addrs@ == old(self).label_addrs@,
                self.label_uses@ == old(self).label_uses@,
                self.constants@ == old(self).constants@,
                self.code@ == patched(code0, uses, addrs, i as int),
                self.code@.len() == code0.len(),
                forall|k: int|
                    0 <= k < self.label_uses@.len() ==> jump_at(
                        self.code@,
                        (#[trigger] self.label_uses@[k]).1.0 as int,
                    ),
                forall|k: int|
                    0 <= k < uses.len() ==> label_addr(addrs, (#[trigger] uses[k]).0, 0) is Some,
            decreases self.label_uses.len() - i,
        {
            let p = self.label_uses[i].1.0 as usize;
            assert(uses[i as int] == (self.label_uses@[i as int].0@, self.label_uses@[i as int].1));
            assert(jump_at(self.code@, p as int));
            let dst = find_label(&self.label_addrs, self.label_uses[i].0.as_str());
            let instr = Instr::decode(self.code[p]).patch_addr(dst);
            proof {
                lemma_jump_encoding(instr);
            }
            let ghost before = self.code@;
            self.code.set(p, instr.encode());
            i = i + 1;
            assert(self.code@ =~= patched(code0, uses, addrs, i as int));
            assert forall|k: int| 0 <= k < self.label_uses@.len() implies jump_at(
                self.code@,
                (#[trigger] self.label_uses@[k]).1.0 as int,
            ) by {
                assert(jump_at(before, self.label_uses@[k].1.0 as int));
            }
        }
    }

    fn curr_pos(&self) -> (r: Addr)
        requires
            self.code_v().len() <= u16::MAX,
        ensures
            r == Addr(self.code_v().len() as u16),
    {
        Addr(self.code.len() as u16)
    }
}

proof fn lemma_label_addr_none(addrs: Seq<(Seq<char>, Addr)>, name: Seq<char>, i: int)
    requires
        0 <= i <= addrs.len(),
        label_addr(addrs, name, i) is None,
    ensures
        forall|j: int| i <= j < addrs.len() ==> addrs[j].0 != name,
    decreases addrs.len() - i,
{
    if i < addrs.len() {
        lemma_label_addr_none(addrs, name, i + 1);
    }
}

/// Where the label `name` stands.
fn find_label(addrs: &Vec<(String, Addr)>, name: &str) -> (r: Addr)
    requires
        label_addr(marks_v(addrs@), name@, 0) is Some,
    ensures
        label_addr(marks_v(addrs@), name@, 0) == Some(r),
{
    let ghost ms = marks_v(addrs@);
    let target = name.to_owned();
    let mut i: usize = 0;
    while i < addrs.len()
        invariant
            i <= addrs.len(),
            ms == marks_v(addrs@),
            target@ == name@,
            label_addr(ms, name@, 0) == label_addr(ms, name@, i as int),
            label_addr(ms, name@, 0) is Some,
        decreases addrs.len() - i,
    {
        if addrs[i].0 == target {
            return addrs[i].1;
        }
        i = i + 1;
    }
    Addr(0)
}

/// Whether `e` is among the first `n` elements of `s`.
pub open spec fn among<A>(s: Seq<A>, n: int, e: A) -> bool {
    exists|k: int| 0 <= k < n && s[k] == e
}

/// The labels in the order of where they stand.
fn sorted_labels(addrs: &Vec<(String, Addr)>) -> (r: Vec<(usize, String)>)
    ensures
        labels_sorted(labels_v(r@)),
        labels_v(r@).len() == marks_v(addrs@).len(),
        labels_v(r@).to_set() == label_entries(marks_v(addrs@)).to_set(),
{
    let ghost entries = label_entries(marks_v(addrs@));
    let mut out: Vec<(usize, String)> = Vec::new();
    let mut i: usize = 0;
    while i < addrs.len()
        invariant
            i <= addrs.len(),
            entries == label_entries(marks_v(addrs@)),
            out@.len() == i,
            labels_sorted(labels_v(out@)),
            forall|e: (usize, Seq<char>)| labels_v(out@).contains(e) <==> among(entries, i as int, e),
        decreases addrs.len() - i,
    {
        let a = addrs[i].1.0 as usize;
        let mut p = out.len();
        while p > 0 && out[p - 1].0 > a
            invariant
                p <= out@.len(),
                labels_sorted(labels_v(out@)),
                forall|k: int| p <= k < out@.len() ==> out@[k].0 > a,
            decreases p,
        {
            p = p - 1;
        }
        let ghost old_out = labels_v(out@);
        let e = (a, addrs[i].0.clone());
        let ghost ev = (a, addrs@[i as int].0@);
        out.insert(p, e);
        proof {
            assert(labels_v(out@) =~= old_out.insert(p as int, ev));
            lemma_insert_contains(old_out, p as int, ev);
            assert(entries[i as int] == ev);
            assert forall|j: int, k: int| 0 <= j < k < labels_v(out@).len() implies labels_v(
                out@,
            )[j].0 <= labels_v(out@)[k].0 by {
                if k == p {
                    if p > 0 {
                        assert(old_out[p - 1].0 <= a);
                        assert(old_out[j].0 <= old_out[p - 1].0);
                    }
                } else if j == p {
                    assert(old_out[k - 1].0 > a);
                } else if j > p {
                    assert(old_out[j - 1].0 <= old_out[k - 1].0);
                } else if k > p {
                    assert(old_out[j].0 <= old_out[k - 1].0);
                }
            }
            assert forall|e: (usize, Seq<char>)| labels_v(out@).contains(e) <==> among(
                entries,
                i + 1,
                e,
            ) by {
                if among(entries, i + 1, e) && !among(entries, i as int, e) {
                    let k = choose|k: int| 0 <= k < i + 1 && entries[k] == e;
                    assert(k == i);
                }
                if among(entries, i as int, e) {
                    let k = choose|k: int| 0 <= k < i && entries[k] == e;
                    assert(0 <= k < i + 1 && entries[k] == e);
                }
                if e == ev {
                    assert(entries[i as int] == e);
                }
            }
        }
        i = i + 1;
    }
    proof {
        assert forall|e: (usize, Seq<char>)| labels_v(out@).to_set().contains(e) == entries.to_set().contains(e) by {
            if entries.contains(e) {
                let k = choose|k: int| 0 <= k < entries.len() && entries[k] == e;
                assert(among(entries, i as int, e));
            }
            if among(entries, i as int, e) {
                let k = choose|k: int| 0 <= k < i && entries[k] == e;
                assert(entries.contains(e));
            }
        }
        assert(labels_v(out@).to_set() =~= entries.to_set());
    }
    out
}

/// What an insertion holds: what was there and the new element.
proof fn lemma_insert_contains<A>(s: Seq<A>, p: int, x: A)
    requires
        0 <= p <= s.len(),
    ensures
        forall|e: A| s.insert(p, x).contains(e) <==> (s.contains(e) || e == x),
{
    let t = s.insert(p, x);
    assert forall|e: A| t.contains(e) <==> (s.contains(e) || e == x) by {
        if t.contains(e) {
            let k = choose|k: int| 0 <= k < t.len() && t[k] == e;
            if k < p {
                assert(s[k] == e);
            } else if k > p {
                assert(s[k - 1] == e);
            }
        }
        if s.contains(e) {
            let k = choose|k: int| 0 <= k < s.len() && s[k] == e;
            if k < p {
                assert(t[k] == e);
            } else {
                assert(t[k + 1] == e);
            }
        }
        if e == x {
            assert(t[p] == e);
        }
    }
}

/// A constant asked for again is found where it was put: the position is
/// the one the first request gave, and no constant is added.
pub proof fn lemma_constant_again(cs: Seq<ValueV>, v: ValueV)
    ensures
        ({
            let (after, pos) = match first_equal(cs, v, 0) {
                Some(i) => (cs, i),
                None => (cs.push(v), cs.len() as int),
            };
            first_equal(after, v, 0) == Some(pos)
        }),
{
    if first_equal(cs, v, 0) is None {
        lemma_first_equal_pushed(cs, v, 0);
    }
}

proof fn lemma_first_equal_pushed(cs: Seq<ValueV>, v: ValueV, i: int)
    requires
        0 <= i <= cs.len(),
        first_equal(cs, v, i) is None,
    ensures
        first_equal(cs.push(v), v, i) == Some(cs.len() as int),
    decreases cs.len() - i,
{
    if i < cs.len() {
        assert(cs.push(v)[i] == cs[i]);
        lemma_first_equal_pushed(cs, v, i + 1);
    } else {
        crate::vm::value::lemma_value_eq_refl(v);
        assert(cs.push(v)[i] == v);
    }
}

} // verus!
