use vstd::prelude::*;

use crate::sdo::SdoDataType;
use crate::sdo::spec_u32_le_bytes;
use crate::sdo::u32_le_bytes;

verus! {

/// How a dynamic dictionary entry produces its value on each read.
#[derive(Debug, Clone)]
pub enum ValueGenerator {
    /// A monotonic counter: yields `next`, then advances by `step`,
    /// wrapping around.
    Counter { next: u32, step: u32 },
    /// A fresh uniform draw from `lo..hi` (half-open) on every read.
    RandomU32 { lo: u32, hi: u32 },
}

impl ValueGenerator {
    /// A random generator needs a non-empty range to draw from.
    pub open spec fn wf(&self) -> bool {
        match *self {
            ValueGenerator::RandomU32 { lo, hi } => lo < hi,
            ValueGenerator::Counter { .. } => true,
        }
    }
}

/// One entry of the mock device's object dictionary: a fixed value, or one
/// produced afresh on every read (simulated sensor drift, counters).
#[derive(Debug, Clone)]
pub enum ObjectEntry {
    Static(Vec<u8>, SdoDataType),
    Dynamic(ValueGenerator, SdoDataType),
}

impl ObjectEntry {
    /// Entry well-formedness: dynamic generators must be usable.
    pub open spec fn wf(&self) -> bool {
        match self {
            ObjectEntry::Dynamic(g, _) => g.wf(),
            ObjectEntry::Static(_, _) => true,
        }
    }
}

/// One keyed slot of the dictionary.
#[derive(Debug)]
pub struct DictionaryEntry {
    pub index: u16,
    pub subindex: u8,
    pub entry: ObjectEntry,
}

/// The mock device's object dictionary: (index, sub-index) to entry, each
/// address present at most once.
#[derive(Debug)]
pub struct ObjectDictionary {
    pub entries: Vec<DictionaryEntry>,
}

/// Relies on rand::random_range over an integer range: the result lies
/// inside the given half-open range; an empty range panics, which the
/// precondition rules out.
#[verifier::external_body]
fn random_u32_in(lo: u32, hi: u32) -> (r: u32)
    requires
        lo < hi,
    ensures
        lo <= r < hi,
{
    rand::random_range(lo..hi)
}

impl ObjectDictionary {
    /// Each address appears at most once and every entry is well-formed.
    pub open spec fn wf(&self) -> bool {
        &&& forall|i: int, j: int|
            0 <= i < j < self.entries@.len() ==> !((#[trigger] self.entries@[i]).index == (
            #[trigger] self.entries@[j]).index && self.entries@[i].subindex
                == self.entries@[j].subindex)
        &&& forall|i: int| 0 <= i < self.entries@.len() ==> (#[trigger] self.entries@[i]).entry.wf()
    }

    /// Whether the dictionary holds an entry at this address.
    pub open spec fn spec_has_entry(&self, index: u16, subindex: u8) -> bool {
        exists|i: int|
            0 <= i < self.entries@.len() && (#[trigger] self.entries@[i]).index == index
                && self.entries@[i].subindex == subindex
    }

    /// The position of the entry at this address.
    pub open spec fn spec_position_of(&self, index: u16, subindex: u8) -> int {
        choose|i: int|
            0 <= i < self.entries@.len() && (#[trigger] self.entries@[i]).index == index
                && self.entries@[i].subindex == subindex
    }

    /// The entry at this address.
    pub open spec fn spec_entry_at(&self, index: u16, subindex: u8) -> ObjectEntry {
        self.entries@[self.spec_position_of(index, subindex)].entry
    }

    /// An empty dictionary.
    pub fn new() -> (d: ObjectDictionary)
        ensures
            d.wf(),
            d.entries@.len() == 0,
    {
        ObjectDictionary { entries: Vec::new() }
    }

    /// The position of the entry at this address, if present.
    fn find_entry(&self, index: u16, subindex: u8) -> (r: Option<usize>)
        requires
            self.wf(),
        ensures
            r matches Some(i) ==> i < self.entries@.len() && self.entries@[i as int].index == index
                && self.entries@[i as int].subindex == subindex && self.spec_position_of(
                index,
                subindex,
            ) == i,
            r is Some <==> self.spec_has_entry(index, subindex),
    {
        let mut i: usize = 0;
        while i < self.entries.len()
            invariant
                self.wf(),
                i <= self.entries@.len(),
                forall|j: int|
                    0 <= j < i ==> !((#[trigger] self.entries@[j]).index == index
                        && self.entries@[j].subindex == subindex),
            decreases self.entries@.len() - i,
        {
            if self.entries[i].index == index && self.entries[i].subindex == subindex {
                proof {
                    assert(self.spec_has_entry(index, subindex));
                    let chosen = self.spec_position_of(index, subindex);
                    assert(0 <= chosen < self.entries@.len() && self.entries@[chosen].index
                        == index && self.entries@[chosen].subindex == subindex);
                    if chosen < i {
                        assert(!(self.entries@[chosen].index == self.entries@[i as int].index
                            && self.entries@[chosen].subindex
                            == self.entries@[i as int].subindex));
                    } else if chosen > i {
                        assert(!(self.entries@[i as int].index == self.entries@[chosen].index
                            && self.entries@[i as int].subindex
                            == self.entries@[chosen].subindex));
                    }
                }
                return Some(i);
            }
            i = i + 1;
        }
        None
    }

    /// Put an entry at an address: replace what the address held, or add it.
    /// Every other address is untouched.
    fn put_entry(&mut self, index: u16, subindex: u8, entry: ObjectEntry)
        requires
            old(self).wf(),
            entry.wf(),
        ensures
            final(self).wf(),
            final(self).spec_has_entry(index, subindex),
            final(self).spec_entry_at(index, subindex) == entry,
            forall|x: u16, y: u8|
                !(x == index && y == subindex) ==> #[trigger] final(self).spec_has_entry(x, y)
                    == old(self).spec_has_entry(x, y),
            forall|x: u16, y: u8|
                !(x == index && y == subindex) && old(self).spec_has_entry(x, y)
                    ==> #[trigger] final(self).spec_entry_at(x, y) == old(self).spec_entry_at(x, y),
            old(self).spec_has_entry(index, subindex) ==> final(self).entries@.len() == old(
                self,
            ).entries@.len(),
            !old(self).spec_has_entry(index, subindex) ==> final(self).entries@.len() == old(
                self,
            ).entries@.len() + 1,
    {
        let slot = DictionaryEntry { index, subindex, entry };
        let found = self.find_entry(index, subindex);
        match found {
            Some(i) => {
                self.entries.set(i, slot);
                proof {
                    lemma_dictionary_same_layout(
                        old(self).entries@,
                        self.entries@,
                        i as int,
                        index,
                        subindex,
                    );
                    assert(self.entries@[i as int].index == index && self.entries@[
                    i as int].subindex == subindex);
                    assert(self.spec_position_of(index, subindex) == i);
                }
            },
            None => {
                self.entries.push(slot);
                proof {
                    let olds = old(self).entries@;
                    let news = self.entries@;
                    let n = olds.len() as int;
                    assert(news[n].index == index && news[n].subindex == subindex);
                    assert(self.spec_position_of(index, subindex) == n);
                    assert forall|x: u16, y: u8|
                        !(x == index && y == subindex) implies #[trigger] self.spec_has_entry(x, y)
                        == old(self).spec_has_entry(x, y) by {
                        if old(self).spec_has_entry(x, y) {
                            let k = choose|k: int|
                                0 <= k < n && (#[trigger] olds[k]).index == x && olds[k].subindex
                                    == y;
                            assert(news[k].index == x && news[k].subindex == y);
                        }
                        if self.spec_has_entry(x, y) {
                            let k = choose|k: int|
                                0 <= k < news.len() && (#[trigger] news[k]).index == x
                                    && news[k].subindex == y;
                            assert(k < n);
                            assert(olds[k].index == x && olds[k].subindex == y);
                        }
                    }
                    assert forall|x: u16, y: u8|
                        !(x == index && y == subindex) && old(self).spec_has_entry(x, y) implies
                        #[trigger] self.spec_entry_at(x, y) == old(self).spec_entry_at(x, y) by {
                        let k1 = old(self).spec_position_of(x, y);
                        let k2 = self.spec_position_of(x, y);
                        assert(olds[k1].index == x && olds[k1].subindex == y);
                        assert(news[k1].index == x && news[k1].subindex == y);
                        assert(0 <= k2 < news.len() && news[k2].index == x && news[k2].subindex
                            == y);
                        assert(k2 < n);
                        if k1 != k2 {
                            assert(!(olds[k1].index == olds[k2].index && olds[k1].subindex
                                == olds[k2].subindex));
                        }
                    }
                }
            },
        }
    }

    /// Add a fixed-value entry, replacing whatever the address held.
    pub fn add_static(&mut self, index: u16, subindex: u8, data: Vec<u8>, data_type: SdoDataType)
        requires
            old(self).wf(),
        ensures
            final(self).wf(),
            final(self).spec_has_entry(index, subindex),
            final(self).spec_entry_at(index, subindex) matches ObjectEntry::Static(d, t) && d@
                == data@ && t == data_type,
            forall|x: u16, y: u8|
                !(x == index && y == subindex) ==> #[trigger] final(self).spec_has_entry(x, y)
                    == old(self).spec_has_entry(x, y),
            forall|x: u16, y: u8|
                !(x == index && y == subindex) && old(self).spec_has_entry(x, y)
                    ==> #[trigger] final(self).spec_entry_at(x, y) == old(self).spec_entry_at(x, y),
    {
        self.put_entry(index, subindex, ObjectEntry::Static(data, data_type));
    }

    /// Add a dynamic entry, replacing whatever the address held. A random
    /// generator must come with a non-empty range: reading it draws from
    /// that range, and an empty one could never be read.
    pub fn add_dynamic(
        &mut self,
        index: u16,
        subindex: u8,
        generator: ValueGenerator,
        data_type: SdoDataType,
    )
        requires
            old(self).wf(),
            generator.wf(),
        ensures
            final(self).wf(),
            final(self).spec_has_entry(index, subindex),
            final(self).spec_entry_at(index, subindex) matches ObjectEntry::Dynamic(g, t) && g
                == generator && t == data_type,
            forall|x: u16, y: u8|
                !(x == index && y == subindex) ==> #[trigger] final(self).spec_has_entry(x, y)
                    == old(self).spec_has_entry(x, y),
            forall|x: u16, y: u8|
                !(x == index && y == subindex) && old(self).spec_has_entry(x, y)
                    ==> #[trigger] final(self).spec_entry_at(x, y) == old(self).spec_entry_at(x, y),
    {
        self.put_entry(index, subindex, ObjectEntry::Dynamic(generator, data_type));
    }

    /// Read an entry: a fixed entry yields its bytes; a counter yields its
    /// current value, little-endian, and advances (wrapping); a random
    /// entry yields the little-endian bytes of some value inside its range.
    /// Reading mutates nothing but the counter that was read.
    pub fn get(&mut self, index: u16, subindex: u8) -> (r: Option<(Vec<u8>, SdoDataType)>)
        requires
            old(self).wf(),
        ensures
            final(self).wf(),
            r is Some <==> old(self).spec_has_entry(index, subindex),
            !old(self).spec_has_entry(index, subindex) ==> *final(self) == *old(self),
            forall|x: u16, y: u8| #[trigger]
                final(self).spec_has_entry(x, y) == old(self).spec_has_entry(x, y),
            forall|x: u16, y: u8|
                !(x == index && y == subindex) && old(self).spec_has_entry(x, y)
                    ==> #[trigger] final(self).spec_entry_at(x, y) == old(self).spec_entry_at(x, y),
            old(self).spec_has_entry(index, subindex) ==> ({
                let e = old(self).spec_entry_at(index, subindex);
                let e2 = final(self).spec_entry_at(index, subindex);
                match e {
                    ObjectEntry::Static(d, t) => (r matches Some(p) && p.0@ == d@ && p.1 == t)
                        && e2 == e,
                    ObjectEntry::Dynamic(g, t) => match g {
                        ValueGenerator::Counter { next, step } => (r matches Some(p) && p.0@
                            == spec_u32_le_bytes(next) && p.1 == t) && (e2 matches
                            ObjectEntry::Dynamic(g2, t2) && t2 == t && (g2 matches
                            ValueGenerator::Counter { next: n2, step: s2 } && s2 == step && n2 == (
                        (next + step) % 0x1_0000_0000) as u32)),
                        ValueGenerator::RandomU32 { lo, hi } => (r matches Some(p) && p.1 == t && (
                        exists|v: u32|
                            lo <= v < hi && p.0@ == spec_u32_le_bytes(v))) && e2 == e,
                    },
                }
            }),
    {
        let found = self.find_entry(index, subindex);
        let i = match found {
            Some(i) => i,
            None => {
                return None;
            },
        };
        let (data, data_type, advanced): (Vec<u8>, SdoDataType, Option<ObjectEntry>) = match &self
            .entries[i].entry {
            ObjectEntry::Static(d, t) => (d.clone(), *t, None),
            ObjectEntry::Dynamic(g, t) => match g {
                ValueGenerator::Counter { next, step } => {
                    let n = *next;
                    let s = *step;
                    let wrapped: u32 = if s <= u32::MAX - n {
                        n + s
                    } else {
                        s - (u32::MAX - n) - 1
                    };
                    proof {
                        vstd::arithmetic::div_mod::lemma_fundamental_div_mod_converse(
                            n + s,
                            0x1_0000_0000,
                            if n + s <= u32::MAX {
                                0int
                            } else {
                                1int
                            },
                            wrapped as int,
                        );
                    }
                    (
                        u32_le_bytes(n),
                        *t,
                        Some(
                            ObjectEntry::Dynamic(
                                ValueGenerator::Counter { next: wrapped, step: s },
                                *t,
                            ),
                        ),
                    )
                },
                ValueGenerator::RandomU32 { lo, hi } => {
                    let v = random_u32_in(*lo, *hi);
                    (u32_le_bytes(v), *t, None)
                },
            },
        };
        let ghost pre = *self;
        match advanced {
            Some(e2) => {
                let index2 = self.entries[i].index;
                let subindex2 = self.entries[i].subindex;
                self.entries.set(i, DictionaryEntry { index: index2, subindex: subindex2, entry: e2 });
                proof {
                    lemma_dictionary_same_layout(
                        pre.entries@,
                        self.entries@,
                        i as int,
                        index,
                        subindex,
                    );
                    assert(self.spec_position_of(index, subindex) == i);
                }
            },
            None => {},
        }
        Some((data, data_type))
    }

    /// How many entries the dictionary holds.
    pub fn len(&self) -> (n: usize)
        ensures
            n == self.entries@.len(),
    {
        self.entries.len()
    }
}

/// In a well-formed dictionary where only the entry at position `i` (which
/// holds the given address) changed, well-formedness, membership and every
/// other slot carry over.
proof fn lemma_dictionary_same_layout(
    before: Seq<DictionaryEntry>,
    after: Seq<DictionaryEntry>,
    i: int,
    index: u16,
    subindex: u8,
)
    requires
        forall|p: int, q: int|
            0 <= p < q < before.len() ==> !((#[trigger] before[p]).index == (
            #[trigger] before[q]).index && before[p].subindex == before[q].subindex),
        forall|p: int| 0 <= p < before.len() ==> (#[trigger] before[p]).entry.wf(),
        0 <= i < before.len(),
        before[i].index == index && before[i].subindex == subindex,
        after.len() == before.len(),
        after[i].index == index && after[i].subindex == subindex,
        after[i].entry.wf(),
        forall|j: int| 0 <= j < before.len() && j != i ==> after[j] == before[j],
    ensures
        forall|p: int, q: int|
            0 <= p < q < after.len() ==> !((#[trigger] after[p]).index == (
            #[trigger] after[q]).index && after[p].subindex == after[q].subindex),
        forall|p: int| 0 <= p < after.len() ==> (#[trigger] after[p]).entry.wf(),
        forall|j: int|
            0 <= j < after.len() && !(after[j].index == index && after[j].subindex == subindex)
                ==> after[j] == before[j],
        forall|j: int|
            0 <= j < after.len() ==> (#[trigger] after[j]).index == before[j].index
                && after[j].subindex == before[j].subindex,
{
    assert forall|j: int|
        0 <= j < after.len() implies (#[trigger] after[j]).index == before[j].index
        && after[j].subindex == before[j].subindex by {
        if j != i {
            assert(after[j] == before[j]);
        }
    }
    assert forall|p: int| 0 <= p < after.len() implies (#[trigger] after[p]).entry.wf() by {
        if p != i {
            assert(after[p] == before[p]);
        }
    }
    assert forall|p: int, q: int|
        0 <= p < q < after.len() implies !((#[trigger] after[p]).index == (
    #[trigger] after[q]).index && after[p].subindex == after[q].subindex) by {
        if p != i && q != i {
            assert(after[p] == before[p] && after[q] == before[q]);
        } else if p == i {
            assert(after[q] == before[q]);
        } else {
            assert(after[p] == before[p]);
        }
    }
}

} // verus!
