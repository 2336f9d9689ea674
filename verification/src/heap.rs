//! The heap: an arena of allocation slots indexed by a monotonically
//! increasing base address. A base address is never reused, so a stale
//! pointer is detected by its slot being empty rather than by key reuse.
use vstd::prelude::*;

use crate::program::Type;
use crate::program::clone_type;
use crate::values::Value;
use crate::values::clone_opt_value;

verus! {

/// One live allocation: the element type it was made with and its cells.
/// A cell is `None` until something is stored into it.
pub struct Alloc {
    /// The element type requested at allocation
    pub elem: Type,
    /// The cells; the allocation's length is the number of cells
    pub cells: Vec<Option<Value>>,
}

/// The mathematical shape of one allocation.
#[verifier::ext_equal]
pub ghost struct AllocModel {
    /// The element type requested at allocation
    pub elem: Type,
    /// The cell contents
    pub cells: Seq<Option<Value>>,
}

/// The mathematical shape of the heap: one slot per base address ever
/// handed out, `None` once the allocation is gone.
#[verifier::ext_equal]
pub ghost struct HeapModel {
    /// Slot `b` describes the allocation with base address `b`
    pub slots: Seq<Option<AllocModel>>,
}

impl HeapModel {
    /// Whether a base address names an allocation that is still live.
    pub open spec fn live(self, base: usize) -> bool {
        base < self.slots.len() && self.slots[base as int] is Some
    }

    /// The allocation at a live base address.
    pub open spec fn at(self, base: usize) -> AllocModel
        recommends
            self.live(base),
    {
        self.slots[base as int]->Some_0
    }
}

/// The arena of allocation slots.
pub struct Heap {
    slots: Vec<Option<Alloc>>,
}

impl View for Heap {
    type V = HeapModel;

    closed spec fn view(&self) -> HeapModel {
        HeapModel {
            slots: self.slots@.map_values(|o: Option<Alloc>| view_of_slot(o)),
        }
    }
}

impl Heap {
    /// A heap with no allocations.
    pub fn new() -> (r: Heap)
        ensures
            r@.slots == Seq::<Option<AllocModel>>::empty(),
    {
        let h = Heap { slots: Vec::new() };
        proof {
            assert(h@.slots =~= Seq::<Option<AllocModel>>::empty());
        }
        h
    }

    /// How many base addresses have ever been handed out.
    pub fn size(&self) -> (r: usize)
        ensures
            r == self@.slots.len(),
    {
        self.slots.len()
    }

    /// Reserve a fresh allocation of `n` cells of the element type. The new
    /// base address is the next never-used one; every cell starts
    /// uninitialized.
    pub fn allocate(&mut self, n: usize, elem: Type) -> (base: usize)
        ensures
            base == old(self)@.slots.len(),
            final(self)@.slots == old(self)@.slots.push(
                Some(AllocModel { elem: elem, cells: Seq::new(n as nat, |i: int| None) }),
            ),
    {
        let mut cells: Vec<Option<Value>> = Vec::new();
        let mut i: usize = 0;
        while i < n
            invariant
                0 <= i <= n,
                cells@ =~= Seq::new(i as nat, |j: int| None::<Value>),
            decreases n - i,
        {
            cells.push(None);
            i += 1;
            proof {
                assert(cells@ =~= Seq::new(i as nat, |j: int| None::<Value>));
            }
        }
        let base = self.slots.len();
        self.slots.push(Some(Alloc { elem, cells }));
        proof {
            assert(self@.slots =~= old(self)@.slots.push(
                Some(AllocModel {
                    elem: self.slots@.last()->Some_0.elem,
                    cells: Seq::new(n as nat, |i: int| None),
                }),
            ));
        }
        base
    }

    /// Whether a base address names a live allocation.
    pub fn is_live(&self, base: usize) -> (r: bool)
        ensures
            r == self@.live(base),
    {
        base < self.slots.len() && self.slots[base].is_some()
    }

    /// The number of cells of a live allocation.
    pub fn len_of(&self, base: usize) -> (r: usize)
        requires
            self@.live(base),
        ensures
            r == self@.at(base).cells.len(),
    {
        match &self.slots[base] {
            Some(a) => a.cells.len(),
            None => 0,
        }
    }

    /// The element type of a live allocation.
    pub fn elem_of(&self, base: usize) -> (r: &Type)
        requires
            self@.live(base),
        ensures
            *r == self@.at(base).elem,
    {
        match &self.slots[base] {
            Some(a) => &a.elem,
            None => vstd::pervasive::unreached(),
        }
    }

    /// Read one cell of a live allocation; `None` when nothing was ever
    /// stored there.
    pub fn read(&self, base: usize, idx: usize) -> (r: Option<Value>)
        requires
            self@.live(base),
            idx < self@.at(base).cells.len(),
        ensures
            r == self@.at(base).cells[idx as int],
    {
        match &self.slots[base] {
            Some(a) => clone_opt_value(&a.cells[idx]),
            None => None,
        }
    }

    /// Store a value into one cell of a live allocation.
    pub fn write(&mut self, base: usize, idx: usize, v: Value)
        requires
            old(self)@.live(base),
            idx < old(self)@.at(base).cells.len(),
        ensures
            final(self)@.slots == old(self)@.slots.update(
                base as int,
                Some(AllocModel {
                    elem: old(self)@.at(base).elem,
                    cells: old(self)@.at(base).cells.update(idx as int, Some(v)),
                }),
            ),
    {
        let ghost old_v = v;
        let n = self.len_of(base);
        let elem = clone_type(self.elem_of(base));
        let mut cells: Vec<Option<Value>> = Vec::new();
        let mut k: usize = 0;
        while k < n
            invariant
                0 <= k <= n,
                n == self@.at(base).cells.len(),
                self@.live(base),
                idx < n,
                self == old(self),
                elem == self@.at(base).elem,
                v == old_v,
                cells@ =~= self@.at(base).cells.take(k as int),
            decreases n - k,
        {
            cells.push(self.read(base, k));
            k += 1;
        }
        proof {
            assert(cells@ =~= self@.at(base).cells);
        }
        cells[idx] = Some(v);
        self.slots[base] = Some(Alloc { elem, cells });
        proof {
            assert(self@.slots =~= old(self)@.slots.update(
                base as int,
                Some(AllocModel {
                    elem: old(self)@.at(base).elem,
                    cells: old(self)@.at(base).cells.update(idx as int, Some(v)),
                }),
            ));
        }
    }

    /// Release a slot, live or not: afterwards the base address names
    /// nothing. Reclamation at frame exit uses this, since an explicitly
    /// freed allocation may still be counted.
    pub fn release(&mut self, base: usize)
        requires
            base < old(self)@.slots.len(),
        ensures
            final(self)@.slots == old(self)@.slots.update(base as int, None),
    {
        self.slots[base] = None;
        proof {
            assert(self@.slots =~= old(self)@.slots.update(base as int, None));
        }
    }

    /// An exact copy of the heap, for the speculative checkpoint.
    pub fn duplicate(&self) -> (r: Heap)
        ensures
            r@ == self@,
    {
        let mut slots: Vec<Option<Alloc>> = Vec::new();
        let mut i: usize = 0;
        while i < self.slots.len()
            invariant
                0 <= i <= self.slots@.len(),
                slots@.len() == i,
                forall|j: int| 0 <= j < i ==> view_of_slot(#[trigger] slots@[j])
                    == view_of_slot(self.slots@[j]),
            decreases self.slots@.len() - i,
        {
            let copy: Option<Alloc> = match &self.slots[i] {
                None => None,
                Some(a) => {
                    let mut cells: Vec<Option<Value>> = Vec::new();
                    let mut k: usize = 0;
                    while k < a.cells.len()
                        invariant
                            0 <= k <= a.cells@.len(),
                            cells@ =~= a.cells@.take(k as int),
                        decreases a.cells@.len() - k,
                    {
                        cells.push(clone_opt_value(&a.cells[k]));
                        k += 1;
                        proof {
                            assert(cells@ =~= a.cells@.take(k as int));
                        }
                    }
                    proof {
                        assert(cells@ =~= a.cells@);
                    }
                    Some(Alloc { elem: clone_type(&a.elem), cells })
                },
            };
            slots.push(copy);
            i += 1;
        }
        let r = Heap { slots };
        proof {
            assert(r@.slots =~= self@.slots);
        }
        r
    }
}

/// The model of one slot, shared by the copy loop's invariant and the view.
pub open spec fn view_of_slot(o: Option<Alloc>) -> Option<AllocModel> {
    match o {
        None => None,
        Some(a) => Some(AllocModel { elem: a.elem, cells: a.cells@ }),
    }
}

} // verus!
