//! A sparse map from the positions of a grid to values, backed by a dense array.
use vstd::prelude::*;
use crate::grid::{Grid, GridIterator};
use crate::position::{Cube, HexPosition};

verus! {

/// A map from positions of a grid to values.
///
/// The values lie in an array with one slot for each slot of the grid. The map
/// is viewed as a `Map` from positions to values: a position is in its domain
/// where it belongs to the grid and its slot is filled.
#[derive(Clone, PartialEq, Eq, PartialOrd, Ord)]
pub struct HexMap<T, G: Grid> {
    arr: Vec<Option<T>>,
    grid: G,
    max_count: usize,
    count: usize,
}

impl<T, G: Grid> View for HexMap<T, G> {
    type V = Map<Cube, T>;

    closed spec fn view(&self) -> Map<Cube, T> {
        Map::new(
            |p: Cube| self.occupied(p),
            |p: Cube| self.arr[self.grid.slot_of(p) as int].unwrap(),
        )
    }
}

/// A grid has at most as many positions as slots.
pub proof fn lemma_cells_fit<G: Grid>(grid: &G)
    ensures
        grid.cells().len() <= grid.slots(),
{
    let cells = grid.cells();
    let members = cells.to_set();
    let slot = |p: Cube| grid.slot_of(p) as int;
    let taken = members.map(slot);
    let all = vstd::set_lib::set_int_range(0, grid.slots() as int);
    grid.lemma_cells();
    cells.unique_seq_to_set();
    assert forall|p: Cube, q: Cube|
        members.contains(p) && members.contains(q) && #[trigger] slot(p) == #[trigger] slot(
            q,
        ) implies p == q by {
        assert(cells.contains(p) && cells.contains(q));
        grid.lemma_slot_round_trip(p);
        grid.lemma_slot_round_trip(q);
    }
    vstd::set_lib::lemma_map_size(members, taken, slot);
    assert forall|i: int| taken.contains(i) implies all.contains(i) by {
        let p = choose|p: Cube| members.contains(p) && slot(p) == i;
        assert(cells.contains(p));
        grid.lemma_slot_round_trip(p);
    }
    vstd::set_lib::lemma_int_range(0, grid.slots() as int);
    vstd::set_lib::lemma_len_subset(taken, all);
}

impl<T, G: Grid> HexMap<T, G> {
    /// Whether `p` belongs to the grid and its slot is filled.
    closed spec fn occupied(&self, p: Cube) -> bool {
        &&& p.valid()
        &&& self.grid.member(p)
        &&& self.arr[self.grid.slot_of(p) as int] is Some
    }

    /// The grid that the map lies over.
    pub closed spec fn spec_grid(&self) -> &G {
        &self.grid
    }

    /// The number that `size` reports.
    pub closed spec fn spec_size(&self) -> nat {
        self.count as nat
    }

    /// Whether the map is in order: the array has the slots of the grid, only
    /// slots of positions of the grid are filled, and the count that `size`
    /// reports is the number of filled slots.
    pub closed spec fn wf(&self) -> bool {
        &&& self.arr.len() == self.grid.slots()
        &&& self.max_count == self.grid.cells().len()
        &&& self@.dom().finite()
        &&& self.count == self@.dom().len()
        &&& forall|i: int|
            0 <= i < self.arr.len() && (#[trigger] self.arr[i]) is Some ==> {
                let p = self.grid.position_at(i as nat);
                p.valid() && self.grid.member(p) && self.grid.slot_of(p) == i
            }
    }

    /// In a map that is in order, `size` reports the number of positions that
    /// hold a value, each of which belongs to the grid, and that number is at
    /// most the number of positions of the grid.
    pub proof fn lemma_size(&self)
        requires
            self.wf(),
        ensures
            self@.dom().finite(),
            self.spec_size() == self@.dom().len(),
            self@.dom().subset_of(self.spec_grid().cells().to_set()),
            self@.dom().len() <= self.spec_grid().cells().len(),
            forall|p: Cube| #[trigger]
                self@.dom().contains(p) ==> p.valid() && self.spec_grid().member(p),
    {
        let cells = self.grid.cells();
        self.grid.lemma_cells();
        cells.unique_seq_to_set();
        assert forall|p: Cube| self@.dom().contains(p) implies cells.to_set().contains(p) by {
            assert(cells.contains(p));
        }
        vstd::set_lib::lemma_len_subset(self@.dom(), cells.to_set());
    }

    /// The grid that the map lies over.
    #[verifier::when_used_as_spec(spec_grid)]
    pub fn grid(&self) -> (g: &G)
        ensures
            g == self.spec_grid(),
    {
        &self.grid
    }

    /// An empty map over the grid `g`.
    pub fn new(g: G) -> (m: HexMap<T, G>)
        ensures
            m.wf(),
            *m.spec_grid() == g,
            m@ == Map::<Cube, T>::empty(),
    {
        let size: usize = g.array_size();
        let mut vec: Vec<Option<T>> = Vec::with_capacity(size);
        let mut filled: usize = 0;
        while filled < size
            invariant
                filled <= size,
                vec.len() == filled,
                forall|i: int| 0 <= i < vec.len() ==> (#[trigger] vec[i]) is None,
            decreases size - filled,
        {
            vec.push(None);
            filled = filled + 1;
        }

        proof {
            lemma_cells_fit(&g);
        }
        let mut it = g.iter();
        let mut available_count: usize = 0;
        loop
            invariant
                it.bounded(),
                available_count + it.pending().len() == g.cells().len(),
                g.cells().len() <= usize::MAX,
            ensures
                available_count == g.cells().len(),
            decreases it.pending().len(),
        {
            match it.next() {
                Some(_) => {
                    available_count = available_count + 1;
                },
                None => {
                    break ;
                },
            }
        }

        let m = HexMap { arr: vec, grid: g, max_count: available_count, count: 0 };
        proof {
            assert forall|p: Cube| !m.occupied(p) by {
                if p.valid() && g.member(p) {
                    g.lemma_slot_round_trip(p);
                }
            }
            assert(m@ =~= Map::<Cube, T>::empty());
        }
        m
    }

    /// Puts `value` at `pos` and returns what was there before. At a position
    /// outside the grid nothing is stored, and the map stays as it is.
    pub fn insert(&mut self, pos: &HexPosition, value: T) -> (prev: Option<T>)
        requires
            old(self).wf(),
        ensures
            final(self).wf(),
            final(self).spec_grid() == old(self).spec_grid(),
            !old(self).spec_grid().member(pos@) ==> {
                &&& prev is None
                &&& final(self)@ == old(self)@
                &&& final(self).spec_size() == old(self).spec_size()
            },
            old(self).spec_grid().member(pos@) ==> {
                &&& prev == (if old(self)@.dom().contains(pos@) {
                    Some(old(self)@[pos@])
                } else {
                    None
                })
                &&& final(self)@ == old(self)@.insert(pos@, value)
                &&& final(self).spec_size() == (if old(self)@.dom().contains(pos@) {
                    old(self).spec_size()
                } else {
                    old(self).spec_size() + 1
                })
            },
    {
        let idx: usize = match self.grid.get_index(pos) {
            Some(idx) => idx,
            None => {
                return None;
            },
        };
        proof {
            use_type_invariant(pos);
            self.grid.lemma_slot_round_trip(pos@);
            self.lemma_size();
            self.lemma_room(pos@);
        }
        let mut slot = Some(value);
        core::mem::swap(&mut self.arr[idx], &mut slot);
        if slot.is_none() {
            self.count = self.count + 1;
        }
        proof {
            self.lemma_slot_changed(*old(self), pos@);
        }
        slot
    }

    /// Takes out the value at `pos` and returns it, if there is one.
    pub fn remove(&mut self, pos: &HexPosition) -> (prev: Option<T>)
        requires
            old(self).wf(),
        ensures
            final(self).wf(),
            final(self).spec_grid() == old(self).spec_grid(),
            prev == (if old(self)@.dom().contains(pos@) {
                Some(old(self)@[pos@])
            } else {
                None
            }),
            final(self)@ == old(self)@.remove(pos@),
            final(self).spec_size() == (if old(self)@.dom().contains(pos@) {
                old(self).spec_size() - 1
            } else {
                old(self).spec_size() as int
            }),
    {
        let idx: usize = match self.grid.get_index(pos) {
            Some(idx) => idx,
            None => {
                assert(self@.remove(pos@) =~= self@);
                return None;
            },
        };
        proof {
            use_type_invariant(pos);
            self.grid.lemma_slot_round_trip(pos@);
            self.lemma_size();
            assert(self@.dom().contains(pos@) ==> self@.dom().len() > 0);
        }
        let mut slot = None;
        core::mem::swap(&mut self.arr[idx], &mut slot);
        if slot.is_some() {
            self.count = self.count - 1;
        }
        proof {
            self.lemma_slot_changed(*old(self), pos@);
        }
        slot
    }

    /// Whether there is a value at `pos`.
    pub fn contains(&self, pos: &HexPosition) -> (b: bool)
        requires
            self.wf(),
        ensures
            b == self@.dom().contains(pos@),
    {
        self.get(pos).is_some()
    }

    /// Whether `pos` belongs to the grid, and so could hold a value.
    pub fn could_contain(&self, pos: &HexPosition) -> (b: bool)
        ensures
            b == self.spec_grid().member(pos@),
    {
        self.grid.contains(pos)
    }

    /// The value at `pos`, if there is one.
    pub fn get(&self, pos: &HexPosition) -> (r: Option<&T>)
        requires
            self.wf(),
        ensures
            r == (if self@.dom().contains(pos@) {
                Some(&self@[pos@])
            } else {
                None
            }),
    {
        let idx: usize = match self.grid.get_index(pos) {
            Some(idx) => idx,
            None => {
                return None;
            },
        };
        proof {
            use_type_invariant(pos);
        }
        self.arr[idx].as_ref()
    }

    /// The value at `pos`, if there is one, to be changed in place.
    pub fn get_mut(&mut self, pos: &HexPosition) -> (r: Option<&mut T>)
        requires
            old(self).wf(),
        ensures
            final(self).wf(),
            final(self).spec_grid() == old(self).spec_grid(),
            match r {
                Some(v) => old(self)@.dom().contains(pos@) && *v == old(self)@[pos@]
                    && final(self)@ == old(self)@.insert(pos@, *final(v)),
                None => !old(self)@.dom().contains(pos@) && final(self)@ == old(self)@,
            },
    {
        let idx: usize = match self.grid.get_index(pos) {
            Some(idx) => idx,
            None => {
                return None;
            },
        };
        proof {
            use_type_invariant(pos);
            final(self).lemma_slot_kept(*old(self), pos@);
        }
        self.arr[idx].as_mut()
    }

    /// The slot of `pos`, to be filled, changed or emptied in place; `None` where
    /// `pos` lies outside the grid.
    ///
    /// The count that `size` reports stays as it was. So the map is in order
    /// afterwards only if the slot is left filled where it was filled, and
    /// empty where it was empty.
    pub fn entry(&mut self, pos: &HexPosition) -> (r: Option<&mut Option<T>>)
        requires
            old(self).wf(),
        ensures
            final(self).spec_grid() == old(self).spec_grid(),
            final(self).spec_size() == old(self).spec_size(),
            match r {
                Some(slot) => {
                    &&& old(self).spec_grid().member(pos@)
                    &&& *slot == (if old(self)@.dom().contains(pos@) {
                        Some(old(self)@[pos@])
                    } else {
                        None
                    })
                    &&& final(self)@ == (match *final(slot) {
                        Some(v) => old(self)@.insert(pos@, v),
                        None => old(self)@.remove(pos@),
                    })
                    &&& final(self).wf() <==> ((*final(slot)) is Some <==> (*slot) is Some)
                },
                None => !old(self).spec_grid().member(pos@) && final(self)@ == old(self)@
                    && final(self).wf(),
            },
    {
        let idx: usize = match self.grid.get_index(pos) {
            Some(idx) => idx,
            None => {
                return None;
            },
        };
        proof {
            use_type_invariant(pos);
            final(self).lemma_slot_kept(*old(self), pos@);
        }
        Some(&mut self.arr[idx])
    }

    /// The number of positions that hold a value.
    pub fn size(&self) -> (n: usize)
        ensures
            n == self.spec_size(),
            self.wf() ==> n == self@.dom().len(),
    {
        self.count
    }

    /// Whether every position of the grid holds a value.
    pub fn is_full(&self) -> (b: bool)
        requires
            self.wf(),
        ensures
            b == (self@.dom().len() == self.spec_grid().cells().len()),
            b == (forall|p: Cube|
                p.valid() && self.spec_grid().member(p) ==> #[trigger] self@.dom().contains(p)),
    {
        proof {
            self.lemma_full();
        }
        self.count == self.max_count
    }

    /// A map holds as many values as its grid has positions exactly where each
    /// position of the grid holds one.
    pub proof fn lemma_full(&self)
        requires
            self.wf(),
        ensures
            self@.dom().len() == self.spec_grid().cells().len() <==> (forall|p: Cube|
                p.valid() && self.spec_grid().member(p) ==> #[trigger] self@.dom().contains(p)),
    {
        let cells = self.grid.cells();
        self.lemma_size();
        self.grid.lemma_cells();
        cells.unique_seq_to_set();
        if self@.dom().len() == cells.len() {
            vstd::set_lib::lemma_subset_equality(self@.dom(), cells.to_set());
            assert forall|p: Cube| p.valid() && self.grid.member(p) implies self@.dom().contains(
                p,
            ) by {
                assert(cells.contains(p));
                assert(cells.to_set().contains(p));
            }
        }
        if forall|p: Cube| p.valid() && self.grid.member(p) ==> #[trigger] self@.dom().contains(p) {
            assert forall|p: Cube| cells.to_set().contains(p) implies self@.dom().contains(p) by {
                assert(cells.contains(p));
            }
            assert(self@.dom() =~= cells.to_set());
        }
    }

    /// A value put at a position of the grid that held none is found there, and
    /// makes the map larger by one; to take it out again gives the map that
    /// was, of the size that was.
    ///
    /// `self` is the map before, `filled` the map after the value went in, and
    /// `emptied` the map after it came out.
    pub proof fn lemma_insert_then_remove(&self, filled: Self, emptied: Self, p: Cube, value: T)
        requires
            self.wf(),
            filled.wf(),
            emptied.wf(),
            p.valid(),
            self.spec_grid().member(p),
            !self@.dom().contains(p),
            filled@ == self@.insert(p, value),
            emptied@ == filled@.remove(p),
        ensures
            filled.spec_size() == self.spec_size() + 1,
            filled@.dom().contains(p) && filled@[p] == value,
            emptied.spec_size() == self.spec_size(),
            emptied@ == self@,
    {
        self.lemma_size();
        filled.lemma_size();
        emptied.lemma_size();
        assert(emptied@ =~= self@);
    }

    /// A cursor over the positions that hold a value, each with its value, in
    /// the canonical order of the grid.
    pub fn iter(&self) -> (it: MapIterator<'_, T, G>)
        requires
            self.wf(),
        ensures
            it.wf(),
            it.map() == self,
            it.pending() == self.spec_grid().cells(),
    {
        MapIterator { cursor: self.grid.iter(), map: self }
    }

    /// The walk over a map in order meets each position that holds a value
    /// once, and no other position.
    pub proof fn lemma_iteration(&self)
        requires
            self.wf(),
        ensures
            occupied_of(self.spec_grid().cells(), self@.dom()).no_duplicates(),
            forall|p: Cube| #[trigger]
                occupied_of(self.spec_grid().cells(), self@.dom()).contains(p)
                    <==> self@.dom().contains(p),
    {
        let cells = self.grid.cells();
        let dom = self@.dom();
        let met = occupied_of(cells, dom);
        self.grid.lemma_cells();
        lemma_filter_no_duplicates(cells, |p: Cube| dom.contains(p));
        assert forall|p: Cube| #[trigger] met.contains(p) <==> dom.contains(p) by {
            if met.contains(p) {
                cells.lemma_filter_contains_rev(|p: Cube| dom.contains(p), p);
                let i: int = choose|i: int| 0 <= i < met.len() && met[i] == p;
                cells.lemma_filter_pred(|p: Cube| dom.contains(p), i);
            }
            if dom.contains(p) {
                assert(cells.contains(p));
                let i: int = choose|i: int| 0 <= i < cells.len() && cells[i] == p;
                cells.lemma_filter_contains(|p: Cube| dom.contains(p), i);
            }
        }
    }

    /// What a change of the slot of `p` alone does to a map in order: its view
    /// changes at `p` only, and it stays in order exactly if the slot is still
    /// filled where it was filled, and still empty where it was empty.
    proof fn lemma_slot_kept(&self, before: Self, p: Cube)
        requires
            before.wf(),
            p.valid(),
            before.grid.member(p),
        ensures
            self.only_slot_differs(before, p) ==> {
                &&& self.arr[self.grid.slot_of(p) as int] matches Some(v) ==> self@
                    == before@.insert(p, v)
                &&& self.arr[self.grid.slot_of(p) as int] is None ==> self@ == before@.remove(p)
                &&& self.wf() <==> (self.arr[self.grid.slot_of(p) as int] is Some
                    <==> before.arr[self.grid.slot_of(p) as int] is Some)
            },
    {
        if self.only_slot_differs(before, p) {
            self.lemma_slot_changed(before, p);
            before.lemma_size();
            if before@.dom().contains(p) {
                assert(before@.dom().insert(p) =~= before@.dom());
            } else {
                assert(before@.dom().remove(p) =~= before@.dom());
            }
        }
    }

    /// Whether this map is `before` but for what the slot of `p` holds.
    spec fn only_slot_differs(&self, before: Self, p: Cube) -> bool {
        &&& self.grid == before.grid
        &&& self.count == before.count
        &&& self.max_count == before.max_count
        &&& self.arr.len() == before.arr.len()
        &&& forall|i: int|
            0 <= i < self.arr.len() && i != before.grid.slot_of(p) ==> self.arr[i] == before.arr[i]
    }

    /// A position of the grid that holds no value leaves room for one more.
    proof fn lemma_room(&self, p: Cube)
        requires
            self.wf(),
            p.valid(),
            self.grid.member(p),
        ensures
            !self@.dom().contains(p) ==> self@.dom().len() < self.grid.cells().len(),
    {
        let cells = self.grid.cells();
        self.lemma_size();
        self.grid.lemma_cells();
        cells.unique_seq_to_set();
        if !self@.dom().contains(p) {
            assert(cells.contains(p));
            assert(self@.dom().insert(p).subset_of(cells.to_set()));
            vstd::set_lib::lemma_len_subset(self@.dom().insert(p), cells.to_set());
        }
    }

    /// What a change of the slot of `p` does to the view: the other positions
    /// keep what they had.
    proof fn lemma_slot_changed(&self, before: Self, p: Cube)
        requires
            before.wf(),
            p.valid(),
            before.grid.member(p),
            self.grid == before.grid,
            self.arr.len() == before.arr.len(),
            forall|i: int|
                0 <= i < self.arr.len() && i != before.grid.slot_of(p) ==> self.arr[i]
                    == before.arr[i],
        ensures
            self.arr[self.grid.slot_of(p) as int] matches Some(v) ==> self@ == before@.insert(p, v),
            self.arr[self.grid.slot_of(p) as int] is None ==> self@ == before@.remove(p),
            forall|i: int|
                0 <= i < self.arr.len() && (#[trigger] self.arr[i]) is Some ==> {
                    let q = self.grid.position_at(i as nat);
                    q.valid() && self.grid.member(q) && self.grid.slot_of(q) == i
                },
    {
        self.grid.lemma_slot_round_trip(p);
        assert forall|q: Cube| q.valid() && self.grid.member(q) && q != p implies self.grid.slot_of(
            q,
        ) != self.grid.slot_of(p) && self.grid.slot_of(q) < self.arr.len() by {
            self.grid.lemma_slot_round_trip(q);
        }
        match self.arr[self.grid.slot_of(p) as int] {
            Some(v) => {
                assert(self@ =~= before@.insert(p, v));
            },
            None => {
                assert(self@ =~= before@.remove(p));
            },
        }
    }
}

/// The positions of `order` that lie in `dom`, in the order in which they
/// stand there.
pub open spec fn occupied_of(order: Seq<Cube>, dom: Set<Cube>) -> Seq<Cube> {
    order.filter(|p: Cube| dom.contains(p))
}

/// What is kept of a sequence without duplicates has none either.
proof fn lemma_filter_no_duplicates<A>(s: Seq<A>, pred: spec_fn(A) -> bool)
    requires
        s.no_duplicates(),
    ensures
        s.filter(pred).no_duplicates(),
    decreases s.len(),
{
    reveal(Seq::filter);
    if s.len() > 0 {
        let init = s.drop_last();
        lemma_filter_no_duplicates(init, pred);
        if pred(s.last()) {
            if init.filter(pred).contains(s.last()) {
                init.lemma_filter_contains_rev(pred, s.last());
                let i: int = choose|i: int| 0 <= i < init.len() && init[i] == s.last();
                assert(s[i] == s[s.len() - 1]);
            }
        }
    }
}

/// A cursor over the positions of a map that hold a value.
pub struct MapIterator<'a, T, G: Grid> {
    cursor: G::Iter,
    map: &'a HexMap<T, G>,
}

impl<'a, T, G: Grid> MapIterator<'a, T, G> {
    /// Whether the cursor is in order: its map is, and its walk over the grid
    /// ends.
    pub closed spec fn wf(&self) -> bool {
        self.map.wf() && self.cursor.bounded()
    }

    /// The map that the cursor walks over.
    pub closed spec fn map(&self) -> &'a HexMap<T, G> {
        self.map
    }

    /// The positions of the grid that the walk has still to visit.
    pub closed spec fn pending(&self) -> Seq<Cube> {
        self.cursor.pending()
    }

    /// The positions that are still to come: those still to visit that hold a
    /// value.
    pub open spec fn remaining(&self) -> Seq<Cube> {
        occupied_of(self.pending(), self.map()@.dom())
    }

    /// The next position that holds a value, with its value, or `None` once
    /// there is no such position left.
    pub fn next(&mut self) -> (res: Option<(HexPosition, &'a T)>)
        requires
            old(self).wf(),
        ensures
            final(self).wf(),
            final(self).map() == old(self).map(),
            match res {
                Some((p, v)) => {
                    &&& old(self).remaining().len() > 0
                    &&& p@ == old(self).remaining()[0]
                    &&& old(self).map()@.dom().contains(p@)
                    &&& *v == old(self).map()@[p@]
                    &&& final(self).remaining() == old(self).remaining().skip(1)
                },
                None => old(self).remaining().len() == 0 && final(self).remaining().len() == 0,
            },
    {
        let ghost dom = self.map@.dom();
        loop
            invariant
                self.wf(),
                self.map == old(self).map,
                dom == self.map@.dom(),
                self.remaining() == old(self).remaining(),
            decreases self.cursor.pending().len(),
        {
            let ghost before = self.cursor.pending();
            match self.cursor.next() {
                None => {
                    proof {
                        before.lemma_filter_len(|p: Cube| dom.contains(p));
                        self.cursor.pending().lemma_filter_len(|p: Cube| dom.contains(p));
                    }
                    return None;
                },
                Some(p) => {
                    proof {
                        let rest = self.cursor.pending();
                        assert(before =~= seq![before[0]] + rest);
                        rest.lemma_filter_prepend(before[0], |p: Cube| dom.contains(p));
                    }
                    match self.map.get(&p) {
                        Some(v) => {
                            assert(occupied_of(before, dom) =~= seq![p@] + self.remaining());
                            assert(self.remaining() =~= occupied_of(before, dom).skip(1));
                            return Some((p, v));
                        },
                        None => {
                            assert(occupied_of(before, dom) =~= self.remaining());
                        },
                    }
                },
            }
        }
    }
}

} // verus!
