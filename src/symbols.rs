//! The label→address table of a section.

use vstd::prelude::*;

use crate::tables::chars_eq;
use crate::text::chars_of;

verus! {

/// The address bound to `name` by the first binding of `b` from index `i` on, if any.
pub open spec fn lookup_from(b: Seq<(Seq<char>, u32)>, name: Seq<char>, i: int) -> Option<u32>
    decreases b.len() - i,
{
    if i < 0 || i >= b.len() {
        None
    } else if b[i].0 == name {
        Some(b[i].1)
    } else {
        lookup_from(b, name, i + 1)
    }
}

/// The address bound to `name` in the bindings `b`, if any.
pub open spec fn lookup_in(b: Seq<(Seq<char>, u32)>, name: Seq<char>) -> Option<u32> {
    lookup_from(b, name, 0)
}

/// The bindings `b`, each address moved up by `delta`.
pub open spec fn shifted(b: Seq<(Seq<char>, u32)>, delta: int) -> Seq<(Seq<char>, u32)> {
    Seq::new(b.len(), |i: int| (b[i].0, (b[i].1 + delta) as u32))
}

/// Moving every address keeps which names are bound, and moves the address a lookup finds.
pub proof fn lemma_lookup_shifted(b: Seq<(Seq<char>, u32)>, name: Seq<char>, delta: int, i: int)
    requires
        0 <= i <= b.len(),
    ensures
        match lookup_from(b, name, i) {
            Some(a) => lookup_from(shifted(b, delta), name, i) == Some((a + delta) as u32),
            None => lookup_from(shifted(b, delta), name, i) is None,
        },
    decreases b.len() - i,
{
    if i < b.len() {
        lemma_lookup_shifted(b, name, delta, i + 1);
    }
}

/// Every address bound in `b` is at most `limit`.
pub open spec fn all_at_most(b: Seq<(Seq<char>, u32)>, limit: int) -> bool {
    forall|i: int| 0 <= i < b.len() ==> #[trigger] b[i].1 <= limit
}

/// Label bindings in the order they were made; a lookup takes the first binding of a name.
#[derive(Debug)]
pub struct LabelTable {
    entries: Vec<(String, u32)>,
}

impl View for LabelTable {
    type V = Seq<(Seq<char>, u32)>;

    closed spec fn view(&self) -> Seq<(Seq<char>, u32)> {
        Seq::new(self.entries@.len(), |i: int| (self.entries@[i].0@, self.entries@[i].1))
    }
}

impl LabelTable {
    /// An empty table.
    pub fn new() -> (r: LabelTable)
        ensures
            r@ == Seq::<(Seq<char>, u32)>::empty(),
    {
        let r = LabelTable { entries: Vec::new() };
        proof {
            assert(r@ =~= Seq::<(Seq<char>, u32)>::empty());
        }
        r
    }

    /// The number of bindings.
    pub fn len(&self) -> (r: usize)
        ensures
            r == self@.len(),
    {
        self.entries.len()
    }

    /// The name and address of binding `i`.
    pub fn entry(&self, i: usize) -> (r: (&str, u32))
        requires
            i < self@.len(),
        ensures
            r.0@ == self@[i as int].0,
            r.1 == self@[i as int].1,
    {
        (self.entries[i].0.as_str(), self.entries[i].1)
    }

    /// The address bound to `name`, if any.
    pub fn get(&self, name: &str) -> (r: Option<u32>)
        ensures
            r == lookup_in(self@, name@),
    {
        let n = chars_of(name);
        let mut i: usize = 0;
        while i < self.entries.len()
            invariant
                i <= self@.len(),
                n@ == name@,
                lookup_in(self@, name@) == lookup_from(self@, name@, i as int),
            decreases self@.len() - i,
        {
            let k = chars_of(self.entries[i].0.as_str());
            if chars_eq(k.as_slice(), n.as_slice()) {
                return Some(self.entries[i].1);
            }
            i = i + 1;
        }
        None
    }

    /// Binds `name` to `addr` unless it is bound already; says whether it bound it.
    pub fn bind(&mut self, name: &str, addr: u32) -> (r: bool)
        ensures
            r == (lookup_in(old(self)@, name@) is None),
            r ==> final(self)@ == old(self)@.push((name@, addr)),
            !r ==> final(self)@ == old(self)@,
    {
        if self.get(name).is_some() {
            return false;
        }
        self.entries.push((name.to_owned(), addr));
        proof {
            assert(final(self)@ =~= old(self)@.push((name@, addr)));
        }
        true
    }

    /// Appends the bindings of `other`, each address moved up by `delta`.
    pub fn append_shifted(&mut self, other: &LabelTable, delta: u32)
        requires
            all_at_most(other@, u32::MAX - delta),
        ensures
            final(self)@ == old(self)@ + shifted(other@, delta as int),
    {
        let ghost start = self@;
        let mut i: usize = 0;
        while i < other.entries.len()
            invariant
                i <= other@.len(),
                all_at_most(other@, u32::MAX - delta),
                self@ == start + shifted(other@, delta as int).take(i as int),
            decreases other@.len() - i,
        {
            let name = other.entries[i].0.clone();
            let addr = other.entries[i].1;
            proof {
                assert(other@[i as int].1 <= u32::MAX - delta);
            }
            let ghost before = self@;
            self.entries.push((name, addr + delta));
            proof {
                assert(self@ =~= before.push((other@[i as int].0, (addr + delta) as u32)));
                assert(shifted(other@, delta as int).take(i + 1) =~= shifted(other@, delta as int).take(
                    i as int,
                ).push(shifted(other@, delta as int)[i as int]));
                assert(self@ =~= start + shifted(other@, delta as int).take(i + 1));
            }
            i = i + 1;
        }
        proof {
            assert(shifted(other@, delta as int).take(i as int) =~= shifted(other@, delta as int));
        }
    }

    /// Moves every bound address up by `delta`.
    pub fn shift_all(&mut self, delta: u32)
        requires
            all_at_most(old(self)@, u32::MAX - delta),
        ensures
            final(self)@ == shifted(old(self)@, delta as int),
    {
        let ghost orig = self@;
        let mut i: usize = 0;
        while i < self.entries.len()
            invariant
                i <= self@.len(),
                self@.len() == orig.len(),
                all_at_most(orig, u32::MAX - delta),
                forall|j: int| 0 <= j < i ==> #[trigger] self@[j] == (orig[j].0, (orig[j].1 + delta) as u32),
                forall|j: int| i <= j < self@.len() ==> #[trigger] self@[j] == orig[j],
            decreases self@.len() - i,
        {
            let name = self.entries[i].0.clone();
            let addr = self.entries[i].1;
            let ghost before = self@;
            proof {
                assert(before[i as int] == orig[i as int]);
                assert(orig[i as int].1 <= u32::MAX - delta);
            }
            self.entries.set(i, (name, addr + delta));
            proof {
                assert(self@[i as int] == (orig[i as int].0, (orig[i as int].1 + delta) as u32));
                assert forall|j: int| 0 <= j < self@.len() && j != i implies self@[j] == before[j] by {}
                assert forall|j: int| 0 <= j < i + 1 implies #[trigger] self@[j] == (orig[j].0, (orig[j].1
                    + delta) as u32) by {
                    if j != i {
                        assert(before[j] == (orig[j].0, (orig[j].1 + delta) as u32));
                    }
                }
                assert forall|j: int| i + 1 <= j < self@.len() implies #[trigger] self@[j] == orig[j] by {
                    assert(before[j] == orig[j]);
                }
            }
            i = i + 1;
        }
        proof {
            assert(self@ =~= shifted(orig, delta as int));
        }
    }
}

} // verus!
