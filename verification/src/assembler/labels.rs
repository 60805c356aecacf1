//! The table of the labels of a program, and the comparison of texts that
//! looking a label up rests on.

use vstd::prelude::*;
use vstd::string::StrSliceExecFns;
use crate::instruction::Addr;

verus! {

/// Whether two texts are the same, character by character.
pub fn text_eq(a: &str, b: &str) -> (r: bool)
    ensures
        r == (a@ == b@),
{
    let n: usize = a.unicode_len();
    if n != b.unicode_len() {
        return false;
    }
    let mut i: usize = 0;
    while i < n
        invariant
            n == a@.len(),
            n == b@.len(),
            i <= n,
            forall|j: int| 0 <= j < i ==> a@[j] == b@[j],
        decreases n - i,
    {
        if a.get_char(i) != b.get_char(i) {
            return false;
        }
        i = i + 1;
    }
    assert(a@ =~= b@);
    true
}

/// The map that a list of names with their addresses stands for. Where a
/// name stands twice, the later entry counts.
pub open spec fn table_of(names: Seq<Seq<char>>, addrs: Seq<Addr>) -> Map<Seq<char>, Addr>
    decreases names.len(),
{
    if names.len() == 0 {
        Map::empty()
    } else {
        table_of(names.drop_last(), addrs.drop_last()).insert(names.last(), addrs.last())
    }
}

/// The labels of a program, each with the address that it names.
pub struct LabelTable {
    entries: Vec<(String, Addr)>,
}

impl LabelTable {
    /// The names of the table, in the order in which they came.
    pub closed spec fn names(&self) -> Seq<Seq<char>> {
        Seq::new(self.entries@.len(), |i: int| self.entries@[i].0@)
    }

    /// The addresses of the table, each at the place of its name.
    pub closed spec fn addrs(&self) -> Seq<Addr> {
        Seq::new(self.entries@.len(), |i: int| self.entries@[i].1)
    }
}

impl View for LabelTable {
    type V = Map<Seq<char>, Addr>;

    closed spec fn view(&self) -> Map<Seq<char>, Addr> {
        table_of(self.names(), self.addrs())
    }
}

impl LabelTable {
    /// The table without any label.
    pub fn new() -> (r: LabelTable)
        ensures
            r@ == Map::<Seq<char>, Addr>::empty(),
    {
        LabelTable { entries: Vec::new() }
    }

    /// The address that `name` stands for, if the table has the name.
    pub fn lookup(&self, name: &str) -> (r: Option<Addr>)
        ensures
            r is Some == self@.contains_key(name@),
            r matches Some(addr) ==> addr == self@[name@],
    {
        let mut i: usize = self.entries.len();
        assert(self.names().take(i as int) =~= self.names());
        assert(self.addrs().take(i as int) =~= self.addrs());
        while i > 0
            invariant
                i <= self.entries@.len(),
                self@.contains_key(name@) == table_of(
                    self.names().take(i as int),
                    self.addrs().take(i as int),
                ).contains_key(name@),
                self@.contains_key(name@) ==> self@[name@] == table_of(
                    self.names().take(i as int),
                    self.addrs().take(i as int),
                )[name@],
            decreases i,
        {
            i = i - 1;
            proof {
                let names = self.names().take(i + 1);
                let addrs = self.addrs().take(i + 1);
                assert(names.drop_last() =~= self.names().take(i as int));
                assert(addrs.drop_last() =~= self.addrs().take(i as int));
                assert(names.last() == self.entries@[i as int].0@);
                assert(addrs.last() == self.entries@[i as int].1);
            }
            if text_eq(self.entries[i].0.as_str(), name) {
                return Some(self.entries[i].1);
            }
        }
        None
    }

    /// Adds `name` with its address. A name that the table has already
    /// stands for the new address from then on.
    pub fn insert(&mut self, name: String, addr: Addr)
        ensures
            final(self)@ == old(self)@.insert(name@, addr),
    {
        self.entries.push((name, addr));
        proof {
            assert(self.names().drop_last() =~= old(self).names());
            assert(self.addrs().drop_last() =~= old(self).addrs());
            assert(self.names().last() == name@);
            assert(self.addrs().last() == addr);
        }
    }
}

} // verus!
