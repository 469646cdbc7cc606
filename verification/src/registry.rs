//! Per-piece-type registry: the lookup from tile identity to the piece of
//! one kind standing there. The faction occupancy sets are spec views over
//! the same entries, so the map and the sets are mutually consistent by
//! construction.

use vstd::prelude::*;
use crate::Faction;

verus! {

/// A registry entry: which piece, of which faction, holds the tile.
#[derive(Clone, Copy, Debug, PartialEq, Eq, Structural)]
pub struct RegEntry {
    pub piece: usize,
    pub faction: Faction,
}

/// Lookup from tile identity to the piece of one type standing there; one
/// instance per piece type.
pub struct PieceRegistry {
    pub at: Vec<Option<RegEntry>>,
}

impl PieceRegistry {
    pub open spec fn len(&self) -> int {
        self.at@.len() as int
    }

    pub open spec fn spec_at(&self, t: int) -> Option<RegEntry> {
        self.at@[t]
    }

    /// The occupancy set of faction `f`: the tiles holding a piece of `f`.
    pub open spec fn faction_tiles(&self, f: Faction) -> Set<int> {
        Set::new(
            |t: int|
                0 <= t < self.at@.len() && match self.at@[t] {
                    Some(e) => e.faction == f,
                    None => None::<RegEntry> is Some,
                },
        )
    }

    /// The coordinate-to-piece map and the faction occupancy sets are
    /// mutually consistent: a tile maps to a piece of faction `f` iff the
    /// tile is in `f`'s occupancy set.
    pub proof fn lemma_registry_consistent(&self, t: int, f: Faction)
        ensures
            self.faction_tiles(f).contains(t) <==> (0 <= t < self.len()
                && match self.spec_at(t) {
                    Some(e) => e.faction == f,
                    None => false,
                }),
    {
    }

    /// An empty registry covering `slots` tiles.
    pub fn new(slots: usize) -> (r: PieceRegistry)
        ensures
            r.len() == slots,
            forall|t: int| 0 <= t < slots ==> r.spec_at(t) is None,
    {
        let mut at: Vec<Option<RegEntry>> = Vec::new();
        let mut i: usize = 0;
        while i < slots
            invariant
                i <= slots,
                at@.len() == i,
                forall|j: int| 0 <= j < i ==> at@[j] is None,
            decreases slots - i,
        {
            at.push(None);
            i += 1;
        }
        PieceRegistry { at }
    }

    /// The piece standing on a tile, if any.
    pub fn piece_at(&self, t: usize) -> (r: Option<RegEntry>)
        requires
            t < self.len(),
        ensures
            r == self.spec_at(t as int),
    {
        self.at[t]
    }

    /// Register a piece on a free tile.
    pub fn insert(&mut self, t: usize, piece: usize, faction: Faction)
        requires
            t < old(self).len(),
            old(self).spec_at(t as int) is None,
        ensures
            final(self).at@ == old(self).at@.update(t as int, Some(RegEntry { piece, faction })),
    {
        self.at[t] = Some(RegEntry { piece, faction });
    }

    /// Unregister whatever stands on a tile.
    pub fn remove(&mut self, t: usize)
        requires
            t < old(self).len(),
        ensures
            final(self).at@ == old(self).at@.update(t as int, None::<RegEntry>),
    {
        self.at[t] = None;
    }
}

} // verus!
