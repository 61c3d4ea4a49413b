//! Fixed-capacity allocator that packs up to eight named boolean-like
//! values into the bits of one byte. Slots are handed out in allocation
//! order; a name always resolves to the slot it was given most recently.

use vstd::prelude::*;
use crate::text::str_eq;

verus! {

/// Whether bit `i` of the packed byte is set.
pub open spec fn spec_bit(bits: u8, i: u8) -> bool {
    bits & (1u8 << i) != 0
}

/// The packed byte read as eight boolean slots.
pub open spec fn spec_slots(bits: u8) -> Seq<bool> {
    Seq::new(8, |i: int| spec_bit(bits, i as u8))
}

/// Ghost image of a packer: the eight slot values, and the allocated names
/// in allocation order (the name at position `i` was given slot `i`).
pub struct BitSetView {
    pub slots: Seq<bool>,
    pub names: Seq<Seq<char>>,
}

/// The slot a name resolves to: the position of its most recent
/// allocation, or `-1` if the name was never allocated.
pub open spec fn spec_slot_of(names: Seq<Seq<char>>, name: Seq<char>) -> int
    decreases names.len(),
{
    if names.len() == 0 {
        -1
    } else if names.last() == name {
        names.len() - 1
    } else {
        spec_slot_of(names.drop_last(), name)
    }
}

/// The slot a name resolves to always lies below the number of
/// allocated names, or is `-1`.
pub proof fn lemma_slot_of_bounds(names: Seq<Seq<char>>, name: Seq<char>)
    ensures
        -1 <= spec_slot_of(names, name) < names.len(),
    decreases names.len(),
{
    if names.len() > 0 && names.last() != name {
        lemma_slot_of_bounds(names.drop_last(), name);
    }
}

/// What `set` does to a packer image: with the slot of `name` updated to
/// `value` and success reported, or unchanged with failure reported when
/// the name was never allocated.
pub open spec fn spec_set(v: BitSetView, name: Seq<char>, value: bool) -> (BitSetView, bool) {
    let s = spec_slot_of(v.names, name);
    if s >= 0 {
        (BitSetView { slots: v.slots.update(s, value), names: v.names }, true)
    } else {
        (v, false)
    }
}

/// What `get` reads from a packer image: the value of the name's slot, or
/// `None` when the name was never allocated.
pub open spec fn spec_get(v: BitSetView, name: Seq<char>) -> Option<bool> {
    let s = spec_slot_of(v.names, name);
    if s >= 0 {
        Some(v.slots[s])
    } else {
        None
    }
}

/// Packs up to eight named boolean values into one byte.
pub struct BitSet8 {
    /// The byte that holds the packed bit values.
    bits: u8,
    /// The allocated names, in allocation order; the name at position `i`
    /// owns bit `i`.
    names: Vec<String>,
}

impl View for BitSet8 {
    type V = BitSetView;

    closed spec fn view(&self) -> BitSetView {
        BitSetView { slots: spec_slots(self.bits), names: self.names.deep_view() }
    }
}

impl BitSet8 {
    /// Well-formedness: at most eight names are allocated, and every slot
    /// at or past the allocation point is still clear.
    pub open spec fn inv(&self) -> bool {
        &&& self@.names.len() <= 8
        &&& forall|j: int| self@.names.len() <= j < 8 ==> !self@.slots[j]
    }

    /// Creates an empty packer: no names, every bit clear.
    pub fn new() -> (r: BitSet8)
        ensures
            r.inv(),
            r@.names == Seq::<Seq<char>>::empty(),
            r@.slots == Seq::new(8, |i: int| false),
    {
        let r = BitSet8 { bits: 0, names: Vec::new() };
        proof {
            assert(forall|i: u8| (0u8 & (1u8 << i)) == 0) by (bit_vector);
            assert(r@.slots =~= Seq::new(8, |i: int| false));
            assert(r@.names =~= Seq::<Seq<char>>::empty());
        }
        r
    }

    /// Gives `var_name` the next free slot and returns it; returns `None`
    /// when all eight slots are taken. A name allocated twice consumes a
    /// second slot and thereafter resolves to the newer one.
    pub fn allocate_bit(&mut self, var_name: &str) -> (r: Option<usize>)
        requires
            old(self).inv(),
        ensures
            final(self).inv(),
            old(self)@.names.len() < 8 ==> {
                &&& r == Some(old(self)@.names.len() as usize)
                &&& final(self)@.names == old(self)@.names.push(var_name@)
                &&& final(self)@.slots == old(self)@.slots
            },
            old(self)@.names.len() >= 8 ==> r is None && *final(self) == *old(self),
    {
        if self.names.len() >= 8 {
            return None;
        }
        let slot = self.names.len();
        self.names.push(var_name.to_owned());
        proof {
            assert(self@.names =~= old(self)@.names.push(var_name@));
            assert forall|j: int| self@.names.len() <= j < 8 implies !self@.slots[j] by {
                assert(!old(self)@.slots[j]);
            }
        }
        Some(slot)
    }

    /// The slot `var_name` resolves to, scanning the allocations from the
    /// most recent one backwards.
    fn find_slot(&self, var_name: &str) -> (r: Option<usize>)
        ensures
            match r {
                Some(s) => s < self@.names.len() && s as int == spec_slot_of(
                    self@.names,
                    var_name@,
                ),
                None => spec_slot_of(self@.names, var_name@) == -1,
            },
    {
        let mut i = self.names.len();
        proof {
            assert(self@.names.take(i as int) =~= self@.names);
        }
        while i > 0
            invariant
                i <= self.names.len(),
                self@.names.len() == self.names.len(),
                spec_slot_of(self@.names, var_name@) == spec_slot_of(
                    self@.names.take(i as int),
                    var_name@,
                ),
            decreases i,
        {
            i = i - 1;
            let entry: &String = &self.names[i];
            if str_eq(entry.as_str(), var_name) {
                proof {
                    assert(self@.names.take(i + 1).last() == var_name@);
                }
                return Some(i);
            }
            proof {
                assert(self@.names.take(i + 1).drop_last() =~= self@.names.take(i as int));
            }
        }
        None
    }

    /// Sets or clears the bit of `var_name` and reports success; reports
    /// failure, leaving the byte untouched, when the name was never
    /// allocated.
    pub fn set(&mut self, var_name: &str, value: bool) -> (r: bool)
        requires
            old(self).inv(),
        ensures
            final(self).inv(),
            final(self)@ == spec_set(old(self)@, var_name@, value).0,
            r == spec_set(old(self)@, var_name@, value).1,
    {
        let found = self.find_slot(var_name);
        match found {
            None => {
                proof {
                    assert forall|j: int| self@.names.len() <= j < 8 implies !self@.slots[j] by {
                        assert(!old(self)@.slots[j]);
                    }
                }
                false
            },
            Some(s) => {
                let sb: u8 = s as u8;
                let old_bits = self.bits;
                if value {
                    self.bits = self.bits | (1u8 << sb);
                } else {
                    self.bits = self.bits & !(1u8 << sb);
                }
                proof {
                    let nb = self.bits;
                    if value {
                        assert((old_bits | (1u8 << sb)) & (1u8 << sb) != 0) by (bit_vector)
                            requires
                                sb < 8,
                        ;
                        assert(forall|i: u8|
                            i < 8 && i != sb ==> ((old_bits | (1u8 << sb)) & (1u8 << i)) == (
                            old_bits & (1u8 << i))) by (bit_vector);
                    } else {
                        assert((old_bits & !(1u8 << sb)) & (1u8 << sb) == 0) by (bit_vector)
                            requires
                                sb < 8,
                        ;
                        assert(forall|i: u8|
                            i < 8 && i != sb ==> ((old_bits & !(1u8 << sb)) & (1u8 << i)) == (
                            old_bits & (1u8 << i))) by (bit_vector);
                    }
                    assert(spec_slots(nb) =~= spec_slots(old_bits).update(s as int, value));
                    assert(self@.names =~= old(self)@.names);
                    assert forall|j: int| self@.names.len() <= j < 8 implies !self@.slots[j] by {
                        assert(!old(self)@.slots[j]);
                        assert(self@.slots[j] == old(self)@.slots.update(s as int, value)[j]);
                    }
                }
                true
            },
        }
    }

    /// Reads the bit of `var_name`, or `None` when the name was never
    /// allocated.
    pub fn get(&self, var_name: &str) -> (r: Option<bool>)
        requires
            self.inv(),
        ensures
            r == spec_get(self@, var_name@),
    {
        let found = self.find_slot(var_name);
        match found {
            None => None,
            Some(s) => {
                let sb: u8 = s as u8;
                let b = (self.bits & (1u8 << sb)) != 0;
                Some(b)
            },
        }
    }

    /// How many slots have been allocated.
    pub fn used_bits(&self) -> (r: usize)
        ensures
            r == self@.names.len(),
    {
        self.names.len()
    }

    /// How many of the eight slots are still free.
    pub fn available_bits(&self) -> (r: usize)
        requires
            self.inv(),
        ensures
            r as int == 8 - self@.names.len(),
    {
        8 - self.names.len()
    }
}

/// Law: the used and available counts always split the eight slots
/// between them.
pub proof fn lemma_slot_accounting(b: BitSet8)
    requires
        b.inv(),
    ensures
        b@.names.len() + (8 - b@.names.len()) == 8,
{
}

/// Law: setting an allocated name and then reading the same name gives
/// back exactly the value that was set.
pub proof fn lemma_set_get_round_trip(v: BitSetView, name: Seq<char>, value: bool)
    requires
        spec_slot_of(v.names, name) >= 0,
        v.slots.len() == 8,
        v.names.len() <= 8,
    ensures
        spec_set(v, name, value).1,
        spec_get(spec_set(v, name, value).0, name) == Some(value),
{
    lemma_slot_of_bounds(v.names, name);
}

} // verus!
