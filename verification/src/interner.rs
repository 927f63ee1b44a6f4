//! Interning of strings: each distinct string gets one symbol.
use vstd::prelude::*;

verus! {

/// A type that stands for a position in a table.
pub trait Index: Sized {
    /// The position the value stands for.
    spec fn index_of(self) -> nat;

    /// Whether a position can be stood for.
    spec fn fits(index: nat) -> bool;

    fn from_usize(index: usize) -> (r: Self)
        requires
            Self::fits(index as nat),
        ensures
            r.index_of() == index;

    fn into_usize(self) -> (r: usize)
        ensures
            r == self.index_of();
}

/// A table of distinct strings, each found again by its position.
#[derive(Debug)]
pub struct IndexedInterner {
    values: Vec<String>,
}

impl View for IndexedInterner {
    type V = Seq<Seq<char>>;

    closed spec fn view(&self) -> Seq<Seq<char>> {
        self.values@.map_values(|s: String| s@)
    }
}

impl IndexedInterner {
    /// No string occurs twice.
    pub open spec fn wf(&self) -> bool {
        forall|i: int, j: int| 0 <= i < j < self@.len() ==> self@[i] != self@[j]
    }

    pub fn new() -> (r: IndexedInterner)
        ensures
            r@ == Seq::<Seq<char>>::empty(),
            r.wf(),
    {
        let r = IndexedInterner { values: Vec::new() };
        assert(r@ =~= Seq::<Seq<char>>::empty());
        r
    }

    /// The number of strings in the table.
    pub fn size(&self) -> (r: usize)
        ensures
            r == self@.len(),
    {
        self.values.len()
    }

    /// The position of `s`, added at the end if it is not there yet.
    pub fn intern_str<S: Index>(&mut self, s: &str) -> (r: S)
        requires
            old(self).wf(),
            forall|k: nat| k < old(self)@.len() ==> #[trigger] S::fits(k),
            !old(self)@.contains(s@) ==> S::fits(old(self)@.len()),
        ensures
            final(self).wf(),
            r.index_of() < final(self)@.len(),
            final(self)@[r.index_of() as int] == s@,
            old(self)@.contains(s@) ==> final(self)@ == old(self)@,
            !old(self)@.contains(s@) ==> final(self)@ == old(self)@.push(s@),
    {
        let owned = s.to_owned();
        let mut i: usize = 0;
        while i < self.values.len()
            invariant
                i <= self.values.len(),
                owned@ == s@,
                self.wf(),
                self@ == old(self)@,
                forall|k: nat| k < old(self)@.len() ==> #[trigger] S::fits(k),
                self@ == self.values@.map_values(|s: String| s@),
                forall|j: int| 0 <= j < i ==> self@[j] != s@,
            decreases self.values.len() - i,
        {
            if self.values[i] == owned {
                proof {
                    assert(self@[i as int] == s@);
                    assert(S::fits(i as nat));
                }
                return S::from_usize(i);
            }
            i = i + 1;
        }
        proof {
            assert(!self@.contains(s@));
        }
        let idx = self.values.len();
        let sym = S::from_usize(idx);
        self.values.push(owned);
        proof {
            assert(self@ =~= old(self)@.push(s@));
        }
        sym
    }

    /// The position of `s`, if it is in the table.
    pub fn find_str<S: Index>(&self, s: &str) -> (r: Option<S>)
        requires
            forall|k: nat| k < self@.len() ==> #[trigger] S::fits(k),
        ensures
            match r {
                Some(sym) => sym.index_of() < self@.len() && self@[sym.index_of() as int] == s@,
                None => !self@.contains(s@),
            },
    {
        let owned = s.to_owned();
        let mut i: usize = 0;
        while i < self.values.len()
            invariant
                i <= self.values.len(),
                owned@ == s@,
                self@ == self.values@.map_values(|s: String| s@),
                forall|k: nat| k < self@.len() ==> #[trigger] S::fits(k),
                forall|j: int| 0 <= j < i ==> self@[j] != s@,
            decreases self.values.len() - i,
        {
            if self.values[i] == owned {
                proof {
                    assert(self@[i as int] == s@);
                    assert(S::fits(i as nat));
                }
                return Some(S::from_usize(i));
            }
            i = i + 1;
        }
        None
    }

    /// The string at a position.
    pub fn get_str<S: Index>(&self, symbol: S) -> (r: &str)
        requires
            symbol.index_of() < self@.len(),
        ensures
            r@ == self@[symbol.index_of() as int],
    {
        self.values[symbol.into_usize()].as_str()
    }
}

/// The table of the names in a program.
pub type SymTable = IndexedInterner;

} // verus!
