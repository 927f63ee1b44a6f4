//! A compiled module: its functions by id, and the one it starts with.
use vstd::prelude::*;

use std::collections::HashMap;

use vstd::std_specs::hash::spec_hash_map_iter;
use vstd::std_specs::iter::IteratorSpec;

use crate::interner::SymTable;
use crate::vm::chunk::{code_known, labels_v, listing, Chunk};
use crate::vm::value::{pieces_v, text, value_syms, value_v, values_v_of, Piece, PieceV};

verus! {

#[derive(Clone, Copy, PartialEq, Eq, Structural, Hash, Debug)]
pub struct FuncId(pub u32);

/// A function of a module: its name and its code.
#[derive(Debug)]
pub struct FuncObj {
    pub name: String,
    pub chunk: Chunk,
}

/// The functions of a module by id, and the id of the one it starts with.
pub struct Module {
    pub main: FuncId,
    pub funcs: HashMap<u32, FuncObj>,
}

impl Module {
    /// The code of the function the module starts with.
    pub fn main(&self) -> (r: &Chunk)
        requires
            self.funcs@.contains_key(self.main.0),
        ensures
            *r == self.funcs@[self.main.0].chunk,
    {
        &self.funcs.get(&self.main.0).unwrap().chunk
    }
}

/// How a function is listed: `<name>`, then the listing of its code and a
/// blank line.
pub open spec fn func_listing(f: FuncObj, names: Seq<Seq<char>>) -> Seq<PieceV> {
    text("<"@ + f.name@ + ">\n"@) + listing(
        f.chunk.func_id.0,
        f.chunk.stack_size,
        f.chunk.code@,
        labels_v(f.chunk.labels@),
        values_v_of(f.chunk.constants@),
        names,
    ) + text("\n"@)
}

/// The listings of the functions `order[i..]`.
pub open spec fn module_listing(
    m: Map<u32, FuncObj>,
    order: Seq<u32>,
    names: Seq<Seq<char>>,
    i: int,
) -> Seq<PieceV>
    decreases order.len() - i,
{
    if 0 <= i < order.len() {
        func_listing(m[order[i]], names) + module_listing(m, order, names, i + 1)
    } else {
        Seq::empty()
    }
}

/// A function can be listed: its instructions are known and its constants
/// name symbols of the table.
pub open spec fn listable(f: FuncObj, n: nat) -> bool {
    &&& code_known(f.chunk.code@)
    &&& forall|i: int|
        0 <= i < f.chunk.constants@.len() ==> value_syms(value_v(#[trigger] f.chunk.constants@[i]), n)
}

impl Module {
    /// The listing of every function, in the order the table of functions
    /// is walked in, which is not fixed.
    pub fn disassemble(&self, sym_table: &SymTable) -> (r: Vec<Piece>)
        requires
            forall|k: u32| #[trigger] self.funcs@.contains_key(k) ==> listable(self.funcs@[k], sym_table@.len()),
        ensures
            exists|order: Seq<u32>|
                {
                    &&& order.len() == self.funcs@.dom().len()
                    &&& forall|i: int| 0 <= i < order.len() ==> self.funcs@.contains_key(#[trigger] order[i])
                    &&& forall|k: u32| #[trigger] self.funcs@.contains_key(k) ==> order.contains(k)
                    &&& pieces_v(r@) == module_listing(self.funcs@, order, sym_table@, 0)
                },
    {
        broadcast use vstd::std_specs::hash::group_hash_axioms;

        let ghost names = sym_table@;
        let ghost m = self.funcs@;
        let mut out: Vec<Piece> = Vec::new();
        let it0 = self.funcs.iter();
        let ghost all = it0.remaining();
        let ghost order = all.map_values(|p: (&u32, &FuncObj)| *p.0);
        proof {
            assert(all == spec_hash_map_iter(&self.funcs).remaining());
        }
        for item in it: it0
            invariant
                names == sym_table@,
                m == self.funcs@,
                it.seq() == all,
                order == all.map_values(|p: (&u32, &FuncObj)| *p.0),
                forall|i: int| 0 <= i < all.len() ==> m.contains_key(*all[i].0) && m[*all[i].0] == *all[i].1,
                forall|k: u32| #[trigger] m.contains_key(k) ==> listable(m[k], names.len()),
                pieces_v(out@) + module_listing(m, order, names, it.index() as int) == module_listing(
                    m,
                    order,
                    names,
                    0,
                ),
        {
            let (_, func) = item;
            let ghost idx = it.index() as int;
            let ghost before = pieces_v(out@);
            proof {
                assert(m[order[idx]] == *func);
            }
            let mut head = String::new();
            crate::text::push_str(&mut head, "<");
            crate::text::push_str(&mut head, func.name.as_str());
            crate::text::push_str(&mut head, ">\n");
            assert(head@ =~= "<"@ + func.name@ + ">\n"@);
            out.push(Piece::Text(head));
            assert(pieces_v(out@) =~= before + text("<"@ + func.name@ + ">\n"@));
            let listed = func.chunk.disassemble(sym_table);
            let mut j: usize = 0;
            let ghost mid = pieces_v(out@);
            while j < listed.len()
                invariant
                    j <= listed.len(),
                    pieces_v(out@) == mid + pieces_v(listed@).take(j as int),
                decreases listed.len() - j,
            {
                let p = match &listed[j] {
                    Piece::Text(t) => Piece::Text(t.clone()),
                    Piece::Float32(bits) => Piece::Float32(*bits),
                    Piece::Float64(bits) => Piece::Float64(*bits),
                };
                let ghost b = pieces_v(out@);
                out.push(p);
                assert(pieces_v(out@) =~= b.push(pieces_v(listed@)[j as int]));
                j = j + 1;
                assert(pieces_v(listed@).take(j as int) =~= pieces_v(listed@).take(j - 1).push(
                    pieces_v(listed@)[j - 1],
                ));
            }
            let mut nl = String::new();
            crate::text::push_str(&mut nl, "\n");
            assert(nl@ =~= "\n"@);
            let ghost after = pieces_v(out@);
            out.push(Piece::Text(nl));
            proof {
                assert(pieces_v(out@) =~= after + text("\n"@));
                assert(pieces_v(listed@).take(listed@.len() as int) =~= pieces_v(listed@));
                assert(pieces_v(out@) =~= before + func_listing(m[order[idx]], names));
            }
        }
        proof {
            assert forall|k: u32| #[trigger] m.contains_key(k) implies order.contains(k) by {
                assert(all.contains((&k, &m[k])));
                let i = choose|i: int| 0 <= i < all.len() && all[i] == (&k, &m[k]);
                assert(order[i] == k);
            }
        }
        out
    }
}

} // verus!
