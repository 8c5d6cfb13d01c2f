//! Bounded sets of positions with a dense indexing, and a sparse map over one.
use vstd::prelude::*;
use crate::position::{Cube, HexPosition};
use crate::spiral::SpiralIterator;

mod hex_grid;
mod hex_map;

pub use self::hex_grid::HexGrid;
pub use self::hex_map::{lemma_cells_fit, occupied_of, HexMap, MapIterator};

verus! {

/// A cursor over a finite enumeration of positions.
pub trait GridIterator {
    /// Whether the enumeration is known to end. A cursor is advanced through
    /// this trait only where it is.
    spec fn bounded(&self) -> bool;

    /// The positions that are still to come, in order.
    spec fn pending(&self) -> Seq<Cube>;

    /// The next position, or `None` once the enumeration is exhausted.
    fn next(&mut self) -> (res: Option<HexPosition>)
        requires
            old(self).bounded(),
        ensures
            final(self).bounded(),
            match res {
                Some(p) => old(self).pending().len() > 0 && p@ == old(self).pending()[0]
                    && final(self).pending() == old(self).pending().skip(1),
                None => old(self).pending().len() == 0 && final(self).pending().len() == 0,
            },
    ;
}

/// A spiral with a last ring is a finite enumeration.
impl GridIterator for SpiralIterator {
    open spec fn bounded(&self) -> bool {
        self.limit() is Some
    }

    open spec fn pending(&self) -> Seq<Cube> {
        self.remaining()
    }

    fn next(&mut self) -> (res: Option<HexPosition>) {
        SpiralIterator::next(self)
    }
}

/// A bounded set of positions, each with a slot of its own in a dense array.
///
/// The spec functions are the model that the contracts speak of; what they
/// must satisfy is stated by the two laws.
pub trait Grid {
    /// The cursor over the positions of the grid.
    type Iter: GridIterator;

    /// Whether `p` belongs to the grid.
    spec fn member(&self, p: Cube) -> bool;

    /// The number of slots of the backing array.
    spec fn slots(&self) -> nat;

    /// The slot of a position of the grid.
    spec fn slot_of(&self, p: Cube) -> nat;

    /// The position that a slot stands for.
    spec fn position_at(&self, idx: nat) -> Cube;

    /// The positions of the grid in their canonical order.
    spec fn cells(&self) -> Seq<Cube>;

    /// The slot of a position of the grid lies within the array, and leads back
    /// to that position.
    proof fn lemma_slot_round_trip(&self, p: Cube)
        requires
            p.valid(),
            self.member(p),
        ensures
            self.slot_of(p) < self.slots(),
            self.position_at(self.slot_of(p)) == p,
    ;

    /// The canonical order holds each position of the grid once, and nothing
    /// else.
    proof fn lemma_cells(&self)
        ensures
            self.cells().no_duplicates(),
            forall|p: Cube| #[trigger] self.cells().contains(p) <==> p.valid() && self.member(p),
    ;

    /// Whether `pos` belongs to the grid.
    fn contains(&self, pos: &HexPosition) -> (b: bool)
        ensures
            b == self.member(pos@),
    {
        self.get_index(pos).is_some()
    }

    /// The number of slots of the backing array.
    fn array_size(&self) -> (n: usize)
        ensures
            n == self.slots(),
    ;

    /// The slot of `pos`, or `None` where `pos` does not belong to the grid. The
    /// slot lies within the array and leads back to `pos`.
    fn get_index(&self, pos: &HexPosition) -> (r: Option<usize>)
        ensures
            match r {
                Some(idx) => {
                    &&& self.member(pos@)
                    &&& idx == self.slot_of(pos@)
                    &&& idx < self.slots()
                    &&& self.position_at(idx as nat) == pos@
                },
                None => !self.member(pos@),
            },
    ;

    /// The position that the slot `idx` stands for.
    fn inverse_index(&self, idx: usize) -> (p: HexPosition)
        requires
            idx < self.slots(),
        ensures
            p@ == self.position_at(idx as nat),
    ;

    /// A cursor over the positions of the grid in their canonical order.
    fn iter(&self) -> (it: Self::Iter)
        ensures
            it.bounded(),
            it.pending() == self.cells(),
    ;
}

} // verus!
